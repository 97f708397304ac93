//! From the outcome of a compilation to the reply that shows it: which text is shown, under
//! which syntax tag, and with which notes.

use vstd::prelude::*;
use crate::delivery::DeliveryPayload;
use crate::language::Language;
use crate::resolve::GodboltMode;
use crate::response::{Compilation, CompilationView};
use crate::text::{
    contains, find, find_chars, lemma_find, str_contains, str_trim, to_chars, trim, trim_bounds,
};

verus! {

/// Why an outcome cannot be shown.
#[derive(Debug, Clone, Copy, PartialEq, Eq, Structural)]
pub enum FormatError {
    /// The analysis report was asked for, the compilation succeeded, and no report came back.
    MissingAnalysis,
}

/// What is shown of an outcome.
#[derive(Debug, Clone)]
pub struct Rendered {
    /// The syntax tag of the code block.
    pub lang: String,
    /// The text inside the code block.
    pub text: String,
    /// Notes that follow the code block, each on a line of its own.
    pub note: String,
}

/// What a `Rendered` holds, as plain texts.
pub struct RenderedView {
    pub lang: Seq<char>,
    pub text: Seq<char>,
    pub note: Seq<char>,
}

impl View for Rendered {
    type V = RenderedView;

    open spec fn view(&self) -> RenderedView {
        RenderedView { lang: self.lang@, text: self.text@, note: self.note@ }
    }
}

/// The reply that shows an outcome.
#[derive(Debug, Clone)]
pub enum Reply {
    /// There is no text to show: this short message says so, with the notes.
    Blank(String),
    /// A code block that may have to be cut before it is sent.
    Block(DeliveryPayload),
}

/// What a `Reply` holds, as plain texts.
pub enum ReplyView {
    Blank(Seq<char>),
    Block { body: Seq<char>, fixed_suffix: Seq<char> },
}

impl View for Reply {
    type V = ReplyView;

    open spec fn view(&self) -> ReplyView {
        match self {
            Reply::Blank(message) => ReplyView::Blank(message@),
            Reply::Block(payload) => ReplyView::Block {
                body: payload.body@,
                fixed_suffix: payload.fixed_suffix@,
            },
        }
    }
}

/// The heading in an analysis report from which on nothing is shown.
pub open spec fn report_marker() -> Seq<char> {
    "Instruction Info"@
}

/// The part of an analysis report before the heading, or all of it where the heading is
/// missing.
pub open spec fn before_marker(text: Seq<char>) -> Seq<char> {
    match find(text, report_marker()) {
        Some(i) => text.take(i),
        None => text,
    }
}

/// What is shown of an analysis report: the part before the heading, without the white space
/// around it.
pub open spec fn stripped_report(text: Seq<char>) -> Seq<char> {
    trim(before_marker(text))
}

/// The note for a compilation that succeeded with diagnostics.
pub open spec fn warnings_note() -> Seq<char> {
    "Note: compilation produced warnings\n"@
}

/// The note for a Rust source without an exported function.
pub open spec fn exports_note() -> Seq<char> {
    "Note: only public functions (`pub fn`) are shown\n"@
}

/// The mark of an exported function in a Rust source.
pub open spec fn export_marker() -> Seq<char> {
    "pub fn"@
}

/// The syntax tag under which a successful outcome is shown: assembly, intermediate
/// representation, or for an analysis the source language.
pub open spec fn syntax_tag(mode: GodboltMode, language: Language) -> Seq<char> {
    match mode {
        GodboltMode::Asm => "x86asm"@,
        GodboltMode::LlvmIr => "llvm"@,
        GodboltMode::Mca => language.name_view(),
    }
}

/// The warning note where there are diagnostics, nothing where there are none.
pub open spec fn note_for_diagnostics(stderr: Seq<char>) -> Seq<char> {
    if stderr.len() > 0 {
        warnings_note()
    } else {
        Seq::empty()
    }
}

/// The note on exported functions for a Rust source that holds none, nothing otherwise.
pub open spec fn note_for_exports(language: Language, source: Seq<char>) -> Seq<char> {
    if language == Language::Rust && !contains(source, export_marker()) {
        exports_note()
    } else {
        Seq::empty()
    }
}

/// What is shown of the outcome of a compilation.
pub open spec fn rendered_compilation(
    outcome: CompilationView,
    mode: GodboltMode,
    language: Language,
    source: Seq<char>,
) -> Result<RenderedView, FormatError> {
    match outcome {
        CompilationView::Success { assembly, stdout, stderr, llvm_mca } => {
            let note = note_for_diagnostics(stderr) + note_for_exports(language, source);
            let lang = syntax_tag(mode, language);
            if mode == GodboltMode::Mca {
                match llvm_mca {
                    Some(report) => Ok(RenderedView { lang, text: stripped_report(report), note }),
                    None => Err(FormatError::MissingAnalysis),
                }
            } else {
                Ok(RenderedView { lang, text: assembly, note })
            }
        },
        CompilationView::Error { stderr } => Ok(
            RenderedView {
                lang: language.name_view(),
                text: stderr,
                note: note_for_exports(language, source),
            },
        ),
    }
}

/// What is shown of the outcome of a run of a C++ program.
pub open spec fn rendered_execution(outcome: CompilationView) -> RenderedView {
    match outcome {
        CompilationView::Success { assembly, stdout, stderr, llvm_mca } => RenderedView {
            lang: Language::Cpp.name_view(),
            text: stdout,
            note: note_for_diagnostics(stderr),
        },
        CompilationView::Error { stderr } => RenderedView {
            lang: Language::Cpp.name_view(),
            text: stderr,
            note: Seq::empty(),
        },
    }
}

/// A text is blank when nothing is left of it without the white space around it.
pub open spec fn is_blank(text: Seq<char>) -> bool {
    trim(text).len() == 0
}

/// The message that stands for a blank text: an empty code block, followed by the notes.
pub open spec fn blank_message(note: Seq<char>) -> Seq<char> {
    "``` ```"@ + note
}

/// The body of the reply that shows a text: the opening of a code block under the syntax tag,
/// and the text.
pub open spec fn block_body(lang: Seq<char>, text: Seq<char>) -> Seq<char> {
    "```"@ + lang + "\n"@ + text
}

/// The suffix of the reply that shows a text: the end of the code block, and the notes.
pub open spec fn block_suffix(note: Seq<char>) -> Seq<char> {
    "\n```"@ + note
}

/// The reply for what is shown: an empty code block where the text is blank, else the text
/// in a code block under its syntax tag; the notes follow the block.
pub open spec fn reply_view(rendered: RenderedView) -> ReplyView {
    if is_blank(rendered.text) {
        ReplyView::Blank(blank_message(rendered.note))
    } else {
        ReplyView::Block {
            body: block_body(rendered.lang, rendered.text),
            fixed_suffix: block_suffix(rendered.note),
        }
    }
}

/// The overflow note of a compilation: it gives the short link to the whole output, or says
/// that none could be had.
pub open spec fn overflow_note_view(link: Option<Seq<char>>) -> Seq<char> {
    "Output too large. Godbolt link: <"@ + (match link {
        Some(url) => url,
        None => "failed to retrieve"@,
    }) + ">"@
}

/// The views of a rendering result.
pub open spec fn rendering_view(r: Result<Rendered, FormatError>) -> Result<
    RenderedView,
    FormatError,
> {
    match r {
        Ok(rendered) => Ok(rendered@),
        Err(e) => Err(e),
    }
}

impl FormatError {
    /// The message for the caller.
    pub open spec fn message_view(self) -> Seq<char> {
        "No llvm-mca result was sent by Godbolt"@
    }

    /// The message for the caller.
    pub fn message(&self) -> (r: String)
        ensures
            r@ == self.message_view(),
    {
        "No llvm-mca result was sent by Godbolt".to_owned()
    }
}

/// What is shown of an analysis report: the part before the heading `Instruction Info`,
/// without the white space around it.
pub fn strip_llvm_mca_result(text: &str) -> (r: &str)
    ensures
        r@ == stripped_report(text@),
{
    let chars = to_chars(text);
    let marker = to_chars("Instruction Info");
    let end: usize = match find_chars(&chars, &marker) {
        Some(i) => {
            proof {
                lemma_find(chars@, marker@);
            }
            i
        },
        None => chars.len(),
    };
    assert(chars@.take(end as int) =~= before_marker(text@));
    let (a, b) = trim_bounds(&chars, end);
    text.substring_char(a, b)
}

/// The syntax tag under which a successful outcome is shown.
pub fn syntax_tag_for(mode: GodboltMode, language: Language) -> (r: &'static str)
    ensures
        r@ == syntax_tag(mode, language),
{
    match mode {
        GodboltMode::Asm => "x86asm",
        GodboltMode::LlvmIr => "llvm",
        GodboltMode::Mca => language.name(),
    }
}

/// The notes for an outcome: the one for the diagnostics `stderr` where they are given and
/// not empty, then the one for a source without exported functions where a source is given.
fn notes(stderr: Option<&str>, exports: Option<(Language, &str)>) -> (r: String)
    ensures
        r@ == (match stderr {
            Some(text) => note_for_diagnostics(text@),
            None => Seq::empty(),
        }) + (match exports {
            Some((language, source)) => note_for_exports(language, source@),
            None => Seq::empty(),
        }),
{
    let mut note = String::new();
    let ghost first = match stderr {
        Some(text) => note_for_diagnostics(text@),
        None => Seq::empty(),
    };
    match stderr {
        Some(text) => {
            if !text.is_empty() {
                note.append("Note: compilation produced warnings\n");
            }
        },
        None => {},
    }
    assert(note@ =~= first);
    match exports {
        Some((language, source)) => {
            if language == Language::Rust && !str_contains(source, "pub fn") {
                note.append("Note: only public functions (`pub fn`) are shown\n");
            }
        },
        None => {},
    }
    assert(note@ =~= first + (match exports {
        Some((language, source)) => note_for_exports(language, source@),
        None => Seq::empty(),
    }));
    note
}

/// What is shown of a successful compilation of `source`, once the text to show is chosen:
/// the text under the tag of the mode, with the notes for the diagnostics `stderr` and for a
/// source without exported functions.
pub fn render_success(
    mode: GodboltMode,
    language: Language,
    source: &str,
    text: String,
    stderr: &str,
) -> (r: Rendered)
    ensures
        r@ == (RenderedView {
            lang: syntax_tag(mode, language),
            text: text@,
            note: note_for_diagnostics(stderr@) + note_for_exports(language, source@),
        }),
{
    Rendered {
        lang: syntax_tag_for(mode, language).to_owned(),
        text,
        note: notes(Some(stderr), Some((language, source))),
    }
}

/// What is shown of the outcome of compiling `source` in the given mode.
pub fn render_compilation(
    outcome: &Compilation,
    mode: GodboltMode,
    language: Language,
    source: &str,
) -> (r: Result<Rendered, FormatError>)
    ensures
        rendering_view(r) == rendered_compilation(outcome@, mode, language, source@),
{
    match outcome {
        Compilation::Success { assembly, stdout, stderr, llvm_mca } => {
            let text = if mode == GodboltMode::Mca {
                match llvm_mca {
                    Some(report) => strip_llvm_mca_result(report.as_str()).to_owned(),
                    None => {
                        return Err(FormatError::MissingAnalysis);
                    },
                }
            } else {
                assembly.clone()
            };
            Ok(render_success(mode, language, source, text, stderr.as_str()))
        },
        Compilation::Error { stderr } => Ok(
            Rendered {
                lang: language.name().to_owned(),
                text: stderr.clone(),
                note: notes(None, Some((language, source))),
            },
        ),
    }
}

/// What is shown of the outcome of running a C++ program.
pub fn render_execution(outcome: &Compilation) -> (r: Rendered)
    ensures
        r@ == rendered_execution(outcome@),
{
    match outcome {
        Compilation::Success { assembly, stdout, stderr, llvm_mca } => Rendered {
            lang: Language::Cpp.name().to_owned(),
            text: stdout.clone(),
            note: notes(Some(stderr.as_str()), None),
        },
        Compilation::Error { stderr } => Rendered {
            lang: Language::Cpp.name().to_owned(),
            text: stderr.clone(),
            note: notes(None, None),
        },
    }
}

/// Whether nothing is left of a text without the white space around it.
pub fn text_is_blank(text: &str) -> (r: bool)
    ensures
        r == is_blank(text@),
{
    str_trim(text).is_empty()
}

/// The message that stands for a blank text.
pub fn blank_reply(note: &str) -> (message: String)
    ensures
        message@ == blank_message(note@),
{
    let mut message = String::new();
    message.append("``` ```");
    message.append(note);
    message
}

/// The reply that shows a text in a code block.
pub fn block_reply(rendered: &Rendered) -> (payload: DeliveryPayload)
    ensures
        payload.body@ == block_body(rendered.lang@, rendered.text@),
        payload.fixed_suffix@ == block_suffix(rendered.note@),
{
    let mut body = String::new();
    body.append("```");
    body.append(rendered.lang.as_str());
    body.append("\n");
    body.append(rendered.text.as_str());
    let mut fixed_suffix = String::new();
    fixed_suffix.append("\n```");
    fixed_suffix.append(rendered.note.as_str());
    DeliveryPayload { body, fixed_suffix }
}

/// The reply for what is shown.
pub fn reply_for(rendered: &Rendered) -> (r: Reply)
    ensures
        r@ == reply_view(rendered@),
{
    if text_is_blank(rendered.text.as_str()) {
        Reply::Blank(blank_reply(rendered.note.as_str()))
    } else {
        Reply::Block(block_reply(rendered))
    }
}

/// The overflow note of a compilation, from the short link if one could be had.
pub fn overflow_note(link: Option<&str>) -> (r: String)
    ensures
        r@ == overflow_note_view(
            match link {
                Some(url) => Some(url@),
                None => None,
            },
        ),
{
    let mut note = String::new();
    note.append("Output too large. Godbolt link: <");
    match link {
        Some(url) => note.append(url),
        None => note.append("failed to retrieve"),
    }
    note.append(">");
    note
}

/// A report without the heading is shown whole, but for the white space around it; of a
/// report with the heading, nothing from the heading on is shown.
pub proof fn lemma_stripped_report(text: Seq<char>)
    ensures
        !contains(text, report_marker()) ==> stripped_report(text) == trim(text),
        contains(text, report_marker()) ==> exists|i: int|
            0 <= i <= text.len() - report_marker().len() && text.subrange(
                i,
                i + report_marker().len(),
            ) == report_marker() && #[trigger] trim(text.take(i)) == stripped_report(text),
        stripped_report(text).len() <= text.len(),
{
    lemma_find(text, report_marker());
    crate::text::lemma_trim(before_marker(text));
}

/// A compilation that failed is shown by its diagnostics, under the tag of the source
/// language, whatever the mode.
pub proof fn lemma_failure_shows_diagnostics(
    stderr: Seq<char>,
    mode: GodboltMode,
    language: Language,
    source: Seq<char>,
)
    ensures
        rendered_compilation(CompilationView::Error { stderr }, mode, language, source) matches Ok(
            shown,
        ) && shown.text == stderr && shown.lang == language.name_view(),
{
}

/// Diagnostics of a successful compilation add a note and leave the text that is shown as
/// it is.
pub proof fn lemma_warnings_keep_text(
    assembly: Seq<char>,
    stdout: Seq<char>,
    stderr: Seq<char>,
    llvm_mca: Option<Seq<char>>,
    mode: GodboltMode,
    language: Language,
    source: Seq<char>,
)
    ensures
        ({
            let quiet = rendered_compilation(
                CompilationView::Success { assembly, stdout, stderr: Seq::empty(), llvm_mca },
                mode,
                language,
                source,
            );
            let loud = rendered_compilation(
                CompilationView::Success { assembly, stdout, stderr, llvm_mca },
                mode,
                language,
                source,
            );
            match (quiet, loud) {
                (Ok(q), Ok(l)) => {
                    &&& q.text == l.text
                    &&& q.lang == l.lang
                    &&& l.note == note_for_diagnostics(stderr) + q.note
                },
                (Err(a), Err(b)) => a == b,
                _ => false,
            }
        }),
{
    let tail = note_for_exports(language, source);
    assert(Seq::<char>::empty() + tail =~= tail);
}

} // verus!
