//! Comparing the assembly of two sources.
//!
//! Both sources are compiled. The two assembly texts are handed to a line-oriented differ only
//! where both compilations succeeded; where one failed, its diagnostics are shown instead.

use vstd::prelude::*;
use crate::delivery::DeliveryPayload;
use crate::language::Language;
use crate::response::{Compilation, CompilationView};

verus! {

/// What is to be shown for two outcomes: the two assembly texts to compare, left first, or
/// the diagnostics of the compilation that failed, those of the left one where both did.
pub open spec fn diff_operands_view(left: CompilationView, right: CompilationView) -> Result<
    (Seq<char>, Seq<char>),
    Seq<char>,
> {
    match left {
        CompilationView::Error { stderr } => Err(stderr),
        CompilationView::Success { assembly, stdout, stderr, llvm_mca } => match right {
            CompilationView::Error { stderr } => Err(stderr),
            CompilationView::Success { assembly: other, stdout, stderr, llvm_mca } => Ok(
                (assembly, other),
            ),
        },
    }
}

/// The texts of what is to be shown for two outcomes.
pub open spec fn operands_view(r: Result<(String, String), String>) -> Result<
    (Seq<char>, Seq<char>),
    Seq<char>,
> {
    match r {
        Ok((a, b)) => Ok((a@, b@)),
        Err(stderr) => Err(stderr@),
    }
}

/// The note that follows a comparison that had to be cut.
pub open spec fn truncation_note_view() -> Seq<char> {
    "(output was truncated)"@
}

/// The reply that shows a comparison: the differ's output in a code block.
pub open spec fn diff_body(diff: Seq<char>) -> Seq<char> {
    "```diff\n"@ + diff
}

/// The reply that shows the diagnostics of a failed compilation: a code block under the tag
/// of the source language.
pub open spec fn failure_body(language: Language, stderr: Seq<char>) -> Seq<char> {
    "```"@ + language.name_view() + "\n"@ + stderr
}

/// What closes the code block of either reply.
pub open spec fn block_end() -> Seq<char> {
    "```"@
}

/// What is to be shown for the outcomes of the two compilations.
pub fn diff_operands(left: Compilation, right: Compilation) -> (r: Result<
    (String, String),
    String,
>)
    ensures
        operands_view(r) == diff_operands_view(left@, right@),
{
    match left {
        Compilation::Error { stderr } => Err(stderr),
        Compilation::Success { assembly, stdout, stderr, llvm_mca } => match right {
            Compilation::Error { stderr } => Err(stderr),
            Compilation::Success { assembly: other, stdout, stderr, llvm_mca } => Ok(
                (assembly, other),
            ),
        },
    }
}

/// The reply that shows the differ's output.
pub fn diff_reply(diff: &str) -> (r: DeliveryPayload)
    ensures
        r.body@ == diff_body(diff@),
        r.fixed_suffix@ == block_end(),
{
    let mut body = String::new();
    body.append("```diff\n");
    body.append(diff);
    DeliveryPayload { body, fixed_suffix: "```".to_owned() }
}

/// The reply that shows the diagnostics of the compilation that failed.
pub fn failure_reply(language: Language, stderr: &str) -> (r: DeliveryPayload)
    ensures
        r.body@ == failure_body(language, stderr@),
        r.fixed_suffix@ == block_end(),
{
    let mut body = String::new();
    body.append("```");
    body.append(language.name());
    body.append("\n");
    body.append(stderr);
    DeliveryPayload { body, fixed_suffix: "```".to_owned() }
}

/// The note that follows a comparison that had to be cut.
pub fn truncation_note() -> (r: String)
    ensures
        r@ == truncation_note_view(),
{
    "(output was truncated)".to_owned()
}

/// Two assembly texts are compared exactly when both compilations succeeded, and they are
/// those two outcomes' assembly, left first. Where a compilation failed, what is shown is its
/// diagnostics and no comparison; where both failed, the left one's.
pub proof fn lemma_diff_operands(left: CompilationView, right: CompilationView)
    ensures
        diff_operands_view(left, right) is Ok <==> left is Success && right is Success,
        left is Success && right is Success ==> diff_operands_view(left, right) == Ok::<
            (Seq<char>, Seq<char>),
            Seq<char>,
        >((left->assembly, right->assembly)),
        left is Error ==> diff_operands_view(left, right) == Err::<
            (Seq<char>, Seq<char>),
            Seq<char>,
        >(left->Error_stderr),
        left is Success && right is Error ==> diff_operands_view(left, right) == Err::<
            (Seq<char>, Seq<char>),
            Seq<char>,
        >(right->Error_stderr),
{
}

} // verus!
