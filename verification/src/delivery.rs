//! Fitting a reply into one chat message.
//!
//! A reply is a body followed by a fixed suffix. It is sent as it is when it is short enough;
//! otherwise the body is cut, and a note that says so follows the suffix. The note may be
//! costly to produce, so the caller is asked for it only once it is known to be needed.
//! Lengths count characters.

use vstd::prelude::*;
use vstd::utf8::{
    encode_scalar, encode_utf8, encode_utf8_first_scalar, encode_utf8_valid_utf8,
    is_char_boundary, pop_first_scalar,
};
use crate::text::{from_chars, to_chars};

verus! {

/// The most characters that one message may hold.
pub const MAX_OUTPUT_LENGTH: usize = 2000;

/// The most lines of a body that one message shows.
pub const MAX_OUTPUT_LINES: usize = 45;

/// A reply before it is fitted: the body, which may be cut, and the suffix, which never is.
#[derive(Debug, Clone)]
pub struct DeliveryPayload {
    pub body: String,
    pub fixed_suffix: String,
}

/// What to do with a reply.
#[derive(Debug, Clone)]
pub enum Delivery {
    /// The reply fits: this is the message.
    Ready(String),
    /// The reply must be cut: the overflow note is needed to finish it.
    NeedsOverflowNote,
}

/// The number of line feeds in `s`.
pub open spec fn count_newlines(s: Seq<char>) -> nat
    decreases s.len(),
{
    if s.len() == 0 {
        0
    } else {
        count_newlines(s.drop_last()) + if s.last() == '\n' {
            1nat
        } else {
            0nat
        }
    }
}

/// The number of lines of `s`: each line feed ends a line, and so does the end of the text
/// where characters follow the last line feed.
pub open spec fn line_count(s: Seq<char>) -> nat {
    count_newlines(s) + if s.len() > 0 && s.last() != '\n' {
        1nat
    } else {
        0nat
    }
}

/// The position of the `n`-th line feed of `s`, counted from one, or the length of `s` where
/// it has fewer than `n` line feeds.
pub open spec fn line_end(s: Seq<char>, n: nat) -> nat
    decreases s.len(),
{
    if s.len() == 0 || n == 0 {
        0
    } else if s[0] == '\n' {
        if n == 1 {
            0
        } else {
            1 + line_end(s.skip(1), (n - 1) as nat)
        }
    } else {
        1 + line_end(s.skip(1), n)
    }
}

/// The first `n` lines of `s`: the text up to its `n`-th line feed, without that line feed,
/// or all of it where it has fewer.
pub open spec fn first_lines(s: Seq<char>, n: nat) -> Seq<char> {
    s.take(line_end(s, n) as int)
}

/// The smaller of two lengths.
pub open spec fn min_len(a: nat, b: nat) -> nat {
    if a <= b {
        a
    } else {
        b
    }
}

/// The characters left for the body once the suffix and the note have their place.
pub open spec fn body_budget(suffix: Seq<char>, note: Seq<char>) -> nat {
    if suffix.len() + note.len() >= MAX_OUTPUT_LENGTH {
        0
    } else {
        (MAX_OUTPUT_LENGTH - suffix.len() - note.len()) as nat
    }
}

/// What is kept of a body that is cut: first as many characters as the budget allows, then of
/// these the first lines up to the line limit.
pub open spec fn kept_body(body: Seq<char>, suffix: Seq<char>, note: Seq<char>) -> Seq<char> {
    first_lines(
        body.take(min_len(body_budget(suffix, note), body.len()) as int),
        MAX_OUTPUT_LINES as nat,
    )
}

/// A reply must be cut when body and suffix together exceed the message size, or when the
/// body has more lines than a message shows.
pub open spec fn needs_truncating(body: Seq<char>, suffix: Seq<char>) -> bool {
    body.len() + suffix.len() > MAX_OUTPUT_LENGTH || line_count(body) > MAX_OUTPUT_LINES
}

/// The message for a reply that is cut: what is kept of the body, the suffix, the note.
pub open spec fn truncated_text(body: Seq<char>, suffix: Seq<char>, note: Seq<char>) -> Seq<
    char,
> {
    kept_body(body, suffix, note) + suffix + note
}

/// The message for a reply, given the note that is used if the reply must be cut.
pub open spec fn delivered_text(body: Seq<char>, suffix: Seq<char>, note: Seq<char>) -> Seq<
    char,
> {
    if needs_truncating(body, suffix) {
        truncated_text(body, suffix, note)
    } else {
        body + suffix
    }
}

/// `line_end` is a position in the text, the text before it holds fewer than `n` line feeds
/// (none at all for `n == 0`), and either the text ends there or its `n`-th line feed stands
/// there.
pub proof fn lemma_line_end(s: Seq<char>, n: nat)
    ensures
        line_end(s, n) <= s.len(),
        n > 0 ==> count_newlines(s.take(line_end(s, n) as int)) < n,
        n == 0 ==> line_end(s, n) == 0,
        line_end(s, n) < s.len() && n > 0 ==> {
            &&& s[line_end(s, n) as int] == '\n'
            &&& count_newlines(s.take(line_end(s, n) as int)) == n - 1
        },
        line_end(s, n) == s.len() ==> count_newlines(s) < n || n == 0,
    decreases s.len(),
{
    if s.len() == 0 || n == 0 {
        assert(s.take(0) =~= Seq::<char>::empty());
        if s.len() == 0 {
            assert(s =~= Seq::<char>::empty());
        }
    } else if s[0] == '\n' {
        if n == 1 {
            assert(s.take(0) =~= Seq::<char>::empty());
        } else {
            let rest = s.skip(1);
            let m = (n - 1) as nat;
            lemma_line_end(rest, m);
            let e = line_end(rest, m) as int;
            assert(s.take(e + 1) =~= seq![s[0]] + rest.take(e));
            lemma_count_newlines_concat(seq![s[0]], rest.take(e));
            lemma_count_newlines_single(s[0]);
            if e == rest.len() {
                assert(s.take(e + 1) =~= s);
            }
        }
    } else {
        let rest = s.skip(1);
        lemma_line_end(rest, n);
        let e = line_end(rest, n) as int;
        assert(s.take(e + 1) =~= seq![s[0]] + rest.take(e));
        lemma_count_newlines_concat(seq![s[0]], rest.take(e));
        lemma_count_newlines_single(s[0]);
        if e == rest.len() {
            assert(s.take(e + 1) =~= s);
        }
    }
}

/// A single character holds one line feed or none.
pub proof fn lemma_count_newlines_single(c: char)
    ensures
        count_newlines(seq![c]) == if c == '\n' {
            1nat
        } else {
            0nat
        },
{
    let s = seq![c];
    assert(s.drop_last() =~= Seq::<char>::empty());
    assert(s.last() == c);
    assert(count_newlines(s) == count_newlines(s.drop_last()) + if s.last() == '\n' {
        1nat
    } else {
        0nat
    });
}

/// The line feeds of two texts in a row are those of the first and those of the second.
pub proof fn lemma_count_newlines_concat(a: Seq<char>, b: Seq<char>)
    ensures
        count_newlines(a + b) == count_newlines(a) + count_newlines(b),
    decreases b.len(),
{
    if b.len() == 0 {
        assert(a + b =~= a);
    } else {
        lemma_count_newlines_concat(a, b.drop_last());
        assert((a + b).drop_last() =~= a + b.drop_last());
        assert((a + b).last() == b.last());
    }
}

/// A prefix of a text holds no more line feeds than the text.
pub proof fn lemma_count_newlines_prefix(s: Seq<char>, k: int)
    requires
        0 <= k <= s.len(),
    ensures
        count_newlines(s.take(k)) <= count_newlines(s),
{
    lemma_count_newlines_concat(s.take(k), s.skip(k));
    assert(s.take(k) + s.skip(k) =~= s);
}

/// The first `n` lines of a text are a prefix of it and have at most `n` lines. A text of no
/// more than `n` lines loses at most the line feed at its end, and one with fewer than `n`
/// line feeds is kept whole.
pub proof fn lemma_first_lines(s: Seq<char>, n: nat)
    ensures
        first_lines(s, n).len() <= s.len(),
        first_lines(s, n).is_prefix_of(s),
        line_count(first_lines(s, n)) <= n,
        line_count(s) <= n ==> first_lines(s, n).len() + 1 >= s.len(),
        count_newlines(s) < n ==> first_lines(s, n) == s,
{
    lemma_line_end(s, n);
    let e = line_end(s, n) as int;
    let p = s.take(e);
    if n > 0 && line_count(s) <= n && e < s.len() {
        // The n-th line feed stands at `e`; were anything behind it, there would be more lines.
        lemma_count_newlines_concat(s.take(e + 1), s.skip(e + 1));
        assert(s.take(e + 1) + s.skip(e + 1) =~= s);
        assert(s.take(e + 1).drop_last() =~= s.take(e));
        assert(s.take(e + 1).last() == '\n');
        if e + 1 < s.len() {
            let tail = s.skip(e + 1);
            assert(tail.last() == s.last());
            if s.last() == '\n' {
                assert(count_newlines(tail) == count_newlines(tail.drop_last()) + 1);
            }
        }
    }
    if n == 0 && s.len() > 0 {
        if s.last() == '\n' {
            assert(count_newlines(s) >= 1);
        }
    }
    if count_newlines(s) < n {
        if e < s.len() {
            lemma_count_newlines_prefix(s, e + 1);
            assert(s.take(e + 1).drop_last() =~= s.take(e));
            assert(s.take(e + 1).last() == '\n');
        }
        assert(p =~= s);
    }
}

/// The position in `chars[..limit]` at which its first `n` lines end.
pub fn line_end_exec(chars: &Vec<char>, limit: usize, n: usize) -> (r: usize)
    requires
        limit <= chars.len(),
    ensures
        r == line_end(chars@.take(limit as int), n as nat),
        r <= limit,
{
    let ghost s = chars@.take(limit as int);
    if n == 0 {
        return 0;
    }
    let mut i: usize = 0;
    let mut left: usize = n;
    assert(s.skip(0) =~= s);
    while i < limit
        invariant
            i <= limit <= chars.len(),
            s == chars@.take(limit as int),
            1 <= left <= n,
            line_end(s, n as nat) == i + line_end(s.skip(i as int), left as nat),
        decreases limit - i,
    {
        let ghost rest = s.skip(i as int);
        assert(rest[0] == chars@[i as int]);
        assert(rest.skip(1) =~= s.skip(i + 1));
        if chars[i] == '\n' {
            if left == 1 {
                return i;
            }
            left -= 1;
        }
        i += 1;
    }
    assert(s.skip(i as int) =~= Seq::<char>::empty());
    i
}

/// The number of lines of a text.
pub fn count_lines(chars: &Vec<char>) -> (r: usize)
    ensures
        r == line_count(chars@),
{
    let mut newlines: usize = 0;
    let mut i: usize = 0;
    while i < chars.len()
        invariant
            i <= chars.len(),
            newlines <= i,
            i > 0 && chars@[i - 1] != '\n' ==> newlines < i,
            newlines == count_newlines(chars@.take(i as int)),
        decreases chars.len() - i,
    {
        assert(chars@.take(i + 1).drop_last() =~= chars@.take(i as int));
        if chars[i] == '\n' {
            newlines += 1;
        }
        i += 1;
    }
    assert(chars@.take(i as int) =~= chars@);
    if chars.len() > 0 && chars[chars.len() - 1] != '\n' {
        newlines + 1
    } else {
        newlines
    }
}

/// Whether a reply must be cut before it is sent.
pub fn must_truncate(body: &str, suffix: &str) -> (r: bool)
    ensures
        r == needs_truncating(body@, suffix@),
{
    let chars = to_chars(body);
    let suffix_len = suffix.unicode_len();
    if chars.len() > MAX_OUTPUT_LENGTH || suffix_len > MAX_OUTPUT_LENGTH - chars.len() {
        return true;
    }
    count_lines(&chars) > MAX_OUTPUT_LINES
}

/// First step of a delivery: the message itself where the reply fits, else the request for
/// the overflow note.
pub fn begin_delivery(body: &str, suffix: &str) -> (r: Delivery)
    ensures
        match r {
            Delivery::Ready(message) => {
                &&& !needs_truncating(body@, suffix@)
                &&& message@ == body@ + suffix@
            },
            Delivery::NeedsOverflowNote => needs_truncating(body@, suffix@),
        },
{
    if must_truncate(body, suffix) {
        Delivery::NeedsOverflowNote
    } else {
        let mut message = String::new();
        message.append(body);
        message.append(suffix);
        assert(message@ =~= body@ + suffix@);
        Delivery::Ready(message)
    }
}

/// Second step of a delivery: the message for a reply that is cut, with its overflow note.
pub fn finish_delivery(body: &str, suffix: &str, note: &str) -> (message: String)
    ensures
        message@ == truncated_text(body@, suffix@, note@),
{
    let chars = to_chars(body);
    let suffix_len = suffix.unicode_len();
    let note_len = note.unicode_len();
    let budget: usize = if suffix_len >= MAX_OUTPUT_LENGTH || note_len >= MAX_OUTPUT_LENGTH
        - suffix_len {
        0
    } else {
        MAX_OUTPUT_LENGTH - suffix_len - note_len
    };
    assert(budget == body_budget(suffix@, note@));
    let limit: usize = if budget <= chars.len() {
        budget
    } else {
        chars.len()
    };
    let cut = line_end_exec(&chars, limit, MAX_OUTPUT_LINES);
    let mut message = from_chars(&chars, 0, cut);
    proof {
        let head = chars@.take(limit as int);
        assert(head.take(cut as int) =~= chars@.subrange(0, cut as int));
    }
    message.append(suffix);
    message.append(note);
    message
}

/// The message for a reply when the overflow note is already at hand.
pub fn trim_text(body: &str, suffix: &str, note: &str) -> (message: String)
    ensures
        message@ == delivered_text(body@, suffix@, note@),
{
    match begin_delivery(body, suffix) {
        Delivery::Ready(message) => message,
        Delivery::NeedsOverflowNote => finish_delivery(body, suffix, note),
    }
}

impl DeliveryPayload {
    /// First step of this reply's delivery.
    pub fn begin(&self) -> (r: Delivery)
        ensures
            match r {
                Delivery::Ready(message) => {
                    &&& !needs_truncating(self.body@, self.fixed_suffix@)
                    &&& message@ == self.body@ + self.fixed_suffix@
                },
                Delivery::NeedsOverflowNote => needs_truncating(self.body@, self.fixed_suffix@),
            },
    {
        begin_delivery(self.body.as_str(), self.fixed_suffix.as_str())
    }

    /// Second step of this reply's delivery, with the overflow note.
    pub fn finish(&self, note: &str) -> (message: String)
        ensures
            message@ == truncated_text(self.body@, self.fixed_suffix@, note@),
    {
        finish_delivery(self.body.as_str(), self.fixed_suffix.as_str(), note)
    }
}

/// A reply that is cut fits into one message whenever suffix and note alone do.
pub proof fn lemma_truncated_text_fits(body: Seq<char>, suffix: Seq<char>, note: Seq<char>)
    requires
        suffix.len() + note.len() <= MAX_OUTPUT_LENGTH,
    ensures
        truncated_text(body, suffix, note).len() <= MAX_OUTPUT_LENGTH,
{
    let head = body.take(min_len(body_budget(suffix, note), body.len()) as int);
    lemma_first_lines(head, MAX_OUTPUT_LINES as nat);
}

/// What is kept of a body is a run of whole characters from its start: the cut never falls
/// inside a character. It has no more lines than a message shows.
pub proof fn lemma_kept_body_is_prefix(body: Seq<char>, suffix: Seq<char>, note: Seq<char>)
    ensures
        kept_body(body, suffix, note).is_prefix_of(body),
        kept_body(body, suffix, note).len() <= body_budget(suffix, note),
        line_count(kept_body(body, suffix, note)) <= MAX_OUTPUT_LINES,
{
    let head = body.take(min_len(body_budget(suffix, note), body.len()) as int);
    lemma_first_lines(head, MAX_OUTPUT_LINES as nat);
    assert(kept_body(body, suffix, note) =~= body.take(kept_body(body, suffix, note).len() as int));
}

/// Where a text is cut between two of its characters, its UTF-8 encoding is cut between two
/// characters as well: the bytes of the part that is kept are the first bytes of the whole,
/// and they end on a character boundary.
pub proof fn lemma_prefix_ends_on_char_boundary(text: Seq<char>, k: int)
    requires
        0 <= k <= text.len(),
    ensures
        encode_utf8(text.take(k)).is_prefix_of(encode_utf8(text)),
        is_char_boundary(encode_utf8(text), encode_utf8(text.take(k)).len() as int),
    decreases k,
{
    let bytes = encode_utf8(text);
    encode_utf8_valid_utf8(text);
    if k == 0 {
        assert(text.take(0) =~= Seq::<char>::empty());
        assert(encode_utf8(text.take(0)) =~= Seq::<u8>::empty());
    } else {
        let rest = text.drop_first();
        let first = encode_scalar(text[0] as u32);
        let head = text.take(k);
        assert(head.drop_first() =~= rest.take(k - 1));
        assert(head[0] == text[0]);
        lemma_prefix_ends_on_char_boundary(rest, k - 1);
        let kept = encode_utf8(rest.take(k - 1));
        assert(encode_utf8(head) == first + kept);
        assert(bytes == first + encode_utf8(rest));
        assert(first.len() >= 1);
        assert((first + kept).is_prefix_of(first + encode_utf8(rest))) by {
            assert((first + encode_utf8(rest)).subrange(0, (first + kept).len() as int) =~= first
                + kept);
        }
        encode_utf8_first_scalar(text);
        assert(pop_first_scalar(bytes) =~= encode_utf8(rest));
        encode_utf8_valid_utf8(rest);
    }
}

/// The cut of a body never falls inside a character that takes several bytes: the bytes of
/// what is kept are the first bytes of the body and end on a character boundary of it.
pub proof fn lemma_kept_body_ends_on_char_boundary(
    body: Seq<char>,
    suffix: Seq<char>,
    note: Seq<char>,
)
    ensures
        encode_utf8(kept_body(body, suffix, note)).is_prefix_of(encode_utf8(body)),
        is_char_boundary(
            encode_utf8(body),
            encode_utf8(kept_body(body, suffix, note)).len() as int,
        ),
{
    lemma_kept_body_is_prefix(body, suffix, note);
    let kept = kept_body(body, suffix, note);
    assert(kept =~= body.take(kept.len() as int));
    lemma_prefix_ends_on_char_boundary(body, kept.len() as int);
}

/// A body with more lines than a message shows is cut whatever its size, and the message then
/// ends with the suffix and the overflow note. Where the size leaves room for all of the
/// body, what is kept is its first lines up to the line limit: the text before the line feed
/// that ends the last of them.
pub proof fn lemma_long_body_gets_note(body: Seq<char>, suffix: Seq<char>, note: Seq<char>)
    requires
        line_count(body) > MAX_OUTPUT_LINES,
    ensures
        needs_truncating(body, suffix),
        delivered_text(body, suffix, note) == kept_body(body, suffix, note) + suffix + note,
        kept_body(body, suffix, note).len() < body.len(),
        body.len() <= body_budget(suffix, note) ==> {
            &&& kept_body(body, suffix, note) == first_lines(body, MAX_OUTPUT_LINES as nat)
            &&& body[kept_body(body, suffix, note).len() as int] == '\n'
            &&& count_newlines(kept_body(body, suffix, note)) == MAX_OUTPUT_LINES - 1
        },
{
    let head = body.take(min_len(body_budget(suffix, note), body.len()) as int);
    lemma_first_lines(head, MAX_OUTPUT_LINES as nat);
    if head.len() == body.len() {
        assert(head =~= body);
        lemma_line_end(body, MAX_OUTPUT_LINES as nat);
    }
}

/// A reply that needs no cut is delivered unchanged, whatever the note would have been.
pub proof fn lemma_short_reply_unchanged(body: Seq<char>, suffix: Seq<char>, note: Seq<char>)
    requires
        body.len() + suffix.len() <= MAX_OUTPUT_LENGTH,
        line_count(body) <= MAX_OUTPUT_LINES,
    ensures
        delivered_text(body, suffix, note) == body + suffix,
        delivered_text(body, suffix, note).len() <= MAX_OUTPUT_LENGTH,
{
}

} // verus!
