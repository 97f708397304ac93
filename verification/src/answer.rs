//! From the service's answer to what the caller does next: say a message, or first ask for
//! a short link because the reply has to be cut.
//!
//! The short link costs a request to the service, so it is asked for only where the reply does
//! not fit into one message.

use vstd::prelude::*;
use crate::delivery::{
    delivered_text, needs_truncating, trim_text, truncated_text, Delivery, DeliveryPayload,
};
use crate::diff::{
    block_end, diff_body, diff_operands, diff_operands_view, diff_reply, failure_body,
    failure_reply, truncation_note, truncation_note_view,
};
use crate::format::{
    overflow_note, overflow_note_view, render_compilation, render_execution, rendered_compilation,
    rendered_execution, reply_for, reply_view, FormatError, Reply, ReplyView,
};
use crate::language::Language;
use crate::request::{
    shortlink_request, shortlink_request_view, ShortlinkRequest, ShortlinkRequestView,
};
use crate::resolve::GodboltMode;
use crate::response::{
    compile_outcome, compile_outcome_view, run_outcome, run_outcome_view, GodboltResponse,
    GodboltRunResponse,
};

verus! {

/// What the caller does with the outcome of a request.
#[derive(Debug, Clone)]
pub enum Answer {
    /// Send this message.
    Say(String),
    /// The reply must be cut: ask the service for a short link with `request`, then have
    /// the message made from `payload` and the link.
    Shorten { request: ShortlinkRequest, payload: DeliveryPayload },
}

/// What an `Answer` holds, as plain values.
pub enum AnswerView {
    Say(Seq<char>),
    Shorten { request: ShortlinkRequestView, body: Seq<char>, fixed_suffix: Seq<char> },
}

impl View for Answer {
    type V = AnswerView;

    open spec fn view(&self) -> AnswerView {
        match self {
            Answer::Say(message) => AnswerView::Say(message@),
            Answer::Shorten { request, payload } => AnswerView::Shorten {
                request: request@,
                body: payload.body@,
                fixed_suffix: payload.fixed_suffix@,
            },
        }
    }
}

/// What the caller does with the outcomes of the two compilations of a comparison.
#[derive(Debug, Clone)]
pub enum DiffStep {
    /// Both compiled: have the two assembly texts compared, left first.
    Compare { left: String, right: String },
    /// One failed: send this message, which shows its diagnostics.
    Say(String),
}

/// What a `DiffStep` holds, as plain texts.
pub enum DiffStepView {
    Compare { left: Seq<char>, right: Seq<char> },
    Say(Seq<char>),
}

impl View for DiffStep {
    type V = DiffStepView;

    open spec fn view(&self) -> DiffStepView {
        match self {
            DiffStep::Compare { left, right } => DiffStepView::Compare {
                left: left@,
                right: right@,
            },
            DiffStep::Say(message) => DiffStepView::Say(message@),
        }
    }
}

/// The answer for a reply: a blank reply and one that fits are said as they are; for one that
/// must be cut the short link is asked for.
pub open spec fn answer_view(reply: ReplyView, shortlink: ShortlinkRequestView) -> AnswerView {
    match reply {
        ReplyView::Blank(message) => AnswerView::Say(message),
        ReplyView::Block { body, fixed_suffix } => if needs_truncating(body, fixed_suffix) {
            AnswerView::Shorten { request: shortlink, body, fixed_suffix }
        } else {
            AnswerView::Say(body + fixed_suffix)
        },
    }
}

/// The views of a result that holds an answer.
pub open spec fn answered_view(r: Result<Answer, FormatError>) -> Result<AnswerView, FormatError> {
    match r {
        Ok(answer) => Ok(answer@),
        Err(e) => Err(e),
    }
}

/// The answer to a compile request: what is shown of the outcome that the service's answer
/// stands for, as a reply, under the short link of this very request.
pub open spec fn compile_answer_view(
    response: GodboltResponse,
    mode: GodboltMode,
    language: Language,
    code: Seq<char>,
    compiler: Seq<char>,
    flags: Seq<char>,
) -> Result<AnswerView, FormatError> {
    match rendered_compilation(compile_outcome_view(response), mode, language, code) {
        Ok(rendered) => Ok(
            answer_view(
                reply_view(rendered),
                shortlink_request_view(code, compiler, language, flags, mode.wants_analysis()),
            ),
        ),
        Err(e) => Err(e),
    }
}

/// The answer to a request to run a C++ program.
pub open spec fn run_answer_view(
    response: GodboltRunResponse,
    code: Seq<char>,
    compiler: Seq<char>,
    flags: Seq<char>,
) -> AnswerView {
    answer_view(
        reply_view(rendered_execution(run_outcome_view(response))),
        shortlink_request_view(code, compiler, Language::Cpp, flags, false),
    )
}

/// The message for a reply that is cut, with the short link if one could be had.
pub open spec fn shortened_message(
    body: Seq<char>,
    fixed_suffix: Seq<char>,
    link: Option<Seq<char>>,
) -> Seq<char> {
    truncated_text(body, fixed_suffix, overflow_note_view(link))
}

/// The message that shows a failed compilation in a comparison.
pub open spec fn diff_failure_message(language: Language, stderr: Seq<char>) -> Seq<char> {
    delivered_text(failure_body(language, stderr), block_end(), truncation_note_view())
}

/// The message that shows a comparison.
pub open spec fn diff_message_view(diff: Seq<char>) -> Seq<char> {
    delivered_text(diff_body(diff), block_end(), truncation_note_view())
}

/// What is done with the outcomes of the two compilations of a comparison.
pub open spec fn diff_step_view(
    left: GodboltResponse,
    right: GodboltResponse,
    language: Language,
) -> DiffStepView {
    match diff_operands_view(compile_outcome_view(left), compile_outcome_view(right)) {
        Ok((a, b)) => DiffStepView::Compare { left: a, right: b },
        Err(stderr) => DiffStepView::Say(diff_failure_message(language, stderr)),
    }
}

/// The answer for a reply, under the short link that `shortlink` asks for.
pub fn answer_for(reply: Reply, shortlink: ShortlinkRequest) -> (r: Answer)
    ensures
        r@ == answer_view(reply@, shortlink@),
{
    match reply {
        Reply::Blank(message) => Answer::Say(message),
        Reply::Block(payload) => match payload.begin() {
            Delivery::Ready(message) => Answer::Say(message),
            Delivery::NeedsOverflowNote => Answer::Shorten { request: shortlink, payload },
        },
    }
}

/// The answer to a compile request for `code`, from what the service answered.
pub fn compile_answer(
    response: &GodboltResponse,
    mode: GodboltMode,
    language: Language,
    code: &str,
    compiler: &str,
    flags: &str,
) -> (r: Result<Answer, FormatError>)
    ensures
        answered_view(r) == compile_answer_view(*response, mode, language, code@, compiler@, flags@),
{
    let outcome = compile_outcome(response);
    match render_compilation(&outcome, mode, language, code) {
        Ok(rendered) => Ok(
            answer_for(
                reply_for(&rendered),
                shortlink_request(code, compiler, language, flags, mode.runs_llvm_mca()),
            ),
        ),
        Err(e) => Err(e),
    }
}

/// The answer to a request to run the C++ program `code`, from what the service answered.
pub fn run_answer(response: &GodboltRunResponse, code: &str, compiler: &str, flags: &str) -> (r:
    Answer)
    ensures
        r@ == run_answer_view(*response, code@, compiler@, flags@),
{
    let outcome = run_outcome(response);
    let rendered = render_execution(&outcome);
    answer_for(reply_for(&rendered), shortlink_request(code, compiler, Language::Cpp, flags, false))
}

/// The message for a reply that is cut, once the short link was asked for: `link` is the
/// link, or nothing where none could be had.
pub fn shortened(payload: &DeliveryPayload, link: Option<&str>) -> (message: String)
    ensures
        message@ == shortened_message(
            payload.body@,
            payload.fixed_suffix@,
            match link {
                Some(url) => Some(url@),
                None => None,
            },
        ),
{
    let note = overflow_note(link);
    payload.finish(note.as_str())
}

/// What is done with the answers to the two compile requests of a comparison.
pub fn diff_step(left: &GodboltResponse, right: &GodboltResponse, language: Language) -> (r:
    DiffStep)
    ensures
        r@ == diff_step_view(*left, *right, language),
{
    match diff_operands(compile_outcome(left), compile_outcome(right)) {
        Ok((a, b)) => DiffStep::Compare { left: a, right: b },
        Err(stderr) => {
            let payload = failure_reply(language, stderr.as_str());
            let note = truncation_note();
            DiffStep::Say(
                trim_text(payload.body.as_str(), payload.fixed_suffix.as_str(), note.as_str()),
            )
        },
    }
}

/// The message that shows a comparison, from the differ's output.
pub fn diff_message(diff: &str) -> (message: String)
    ensures
        message@ == diff_message_view(diff@),
{
    let payload = diff_reply(diff);
    let note = truncation_note();
    trim_text(payload.body.as_str(), payload.fixed_suffix.as_str(), note.as_str())
}

/// The short link is asked for exactly where the reply is a code block that does not fit into
/// one message; every other reply is said without a further request.
pub proof fn lemma_short_link_only_when_cut(reply: ReplyView, shortlink: ShortlinkRequestView)
    ensures
        answer_view(reply, shortlink) is Shorten <==> reply is Block && needs_truncating(
            reply->body,
            reply->fixed_suffix,
        ),
        answer_view(reply, shortlink) is Shorten ==> answer_view(reply, shortlink)->request
            == shortlink,
{
}

/// In a comparison nothing is compared unless both sources compiled, and then the two texts
/// are the assembly of the left and of the right source. Where a source did not compile, the
/// message shows its diagnostics; where neither did, those of the left one.
pub proof fn lemma_diff_step(left: GodboltResponse, right: GodboltResponse, language: Language)
    ensures
        diff_step_view(left, right, language) is Compare <==> left.code == 0 && right.code == 0,
        left.code == 0 && right.code == 0 ==> diff_step_view(left, right, language) == (
        DiffStepView::Compare {
            left: compile_outcome_view(left)->assembly,
            right: compile_outcome_view(right)->assembly,
        }),
        left.code != 0 ==> diff_step_view(left, right, language) == DiffStepView::Say(
            diff_failure_message(language, compile_outcome_view(left)->Error_stderr),
        ),
        left.code == 0 && right.code != 0 ==> diff_step_view(left, right, language)
            == DiffStepView::Say(
            diff_failure_message(language, compile_outcome_view(right)->Error_stderr),
        ),
{
}

/// Where the code block fits into one message, a comparison is shown whole in a `diff` block,
/// and the diagnostics of a failed compilation are shown whole under the tag of the source
/// language. Where it does not fit, the message is the block cut to size, with the note that
/// says so.
pub proof fn lemma_diff_messages(language: Language, text: Seq<char>)
    ensures
        !needs_truncating(diff_body(text), block_end()) ==> diff_message_view(text) == diff_body(
            text,
        ) + block_end(),
        !needs_truncating(failure_body(language, text), block_end()) ==> diff_failure_message(
            language,
            text,
        ) == failure_body(language, text) + block_end(),
        needs_truncating(diff_body(text), block_end()) ==> diff_message_view(text)
            == truncated_text(diff_body(text), block_end(), truncation_note_view()),
        needs_truncating(failure_body(language, text), block_end()) ==> diff_failure_message(
            language,
            text,
        ) == truncated_text(failure_body(language, text), block_end(), truncation_note_view()),
{
}

} // verus!
