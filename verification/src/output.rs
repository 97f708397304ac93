//! Segmented text as the compiler service sends it.

use vstd::prelude::*;

verus! {

/// One fragment of a segmented text.
#[derive(Debug, Clone)]
pub struct GodboltOutputSegment {
    pub text: String,
}

/// A text that arrives as a list of fragments.
#[derive(Debug, Clone)]
pub struct GodboltOutput(pub Vec<GodboltOutputSegment>);

/// The texts joined into one, with a line feed between each two neighbours.
pub open spec fn join_lines(texts: Seq<Seq<char>>) -> Seq<char>
    decreases texts.len(),
{
    if texts.len() == 0 {
        Seq::empty()
    } else if texts.len() == 1 {
        texts[0]
    } else {
        join_lines(texts.drop_last()) + seq!['\n'] + texts.last()
    }
}

/// Length of the joined text: the fragments' lengths and one separator between neighbours.
pub open spec fn joined_len(texts: Seq<Seq<char>>) -> nat
    decreases texts.len(),
{
    if texts.len() == 0 {
        0
    } else if texts.len() == 1 {
        texts[0].len()
    } else {
        joined_len(texts.drop_last()) + 1 + texts.last().len()
    }
}

/// Joining keeps every character of every fragment and adds exactly one separator between
/// each two neighbours.
pub proof fn lemma_join_lines_len(texts: Seq<Seq<char>>)
    ensures
        join_lines(texts).len() == joined_len(texts),
    decreases texts.len(),
{
    if texts.len() > 1 {
        lemma_join_lines_len(texts.drop_last());
    }
}

/// A single fragment is its own joined text.
pub proof fn lemma_join_lines_single(text: Seq<char>)
    ensures
        join_lines(seq![text]) == text,
{
    assert(seq![text].len() == 1);
    assert(seq![text][0] == text);
}

impl GodboltOutput {
    /// The fragments' texts, in order.
    pub open spec fn texts(&self) -> Seq<Seq<char>> {
        self.0@.map_values(|segment: GodboltOutputSegment| segment.text@)
    }

    /// The whole text: the fragments in order, separated by line feeds.
    pub fn concatenate(&self) -> (complete_text: String)
        ensures
            complete_text@ == join_lines(self.texts()),
    {
        let mut complete_text = String::new();
        let mut i: usize = 0;
        while i < self.0.len()
            invariant
                i <= self.0.len(),
                complete_text@ == join_lines(self.texts().take(i as int)),
            decreases self.0.len() - i,
        {
            let ghost before = complete_text@;
            if i > 0 {
                complete_text.push('\n');
            }
            complete_text.append(self.0[i].text.as_str());
            proof {
                let now = self.texts().take(i + 1);
                assert(now.drop_last() =~= self.texts().take(i as int));
                assert(now.last() == self.0@[i as int].text@);
                if i > 0 {
                    assert(before.push('\n') =~= before + seq!['\n']);
                } else {
                    assert(before =~= Seq::<char>::empty());
                    assert(complete_text@ =~= now[0]);
                }
            }
            i += 1;
        }
        assert(self.texts().take(i as int) =~= self.texts());
        complete_text
    }
}

} // verus!
