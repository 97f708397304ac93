//! The three requests that are sent to the compiler service: compile, compile and run, and
//! store a session under a short link.

use vstd::prelude::*;
use crate::language::Language;
use crate::response::{llvm_mca_tool, llvm_mca_tool_id};

verus! {

/// A library that is attached to a request, in one of its versions.
#[derive(Debug, Clone)]
pub struct LibraryRef {
    pub id: String,
    pub version: String,
}

/// A request to compile a source, and to run it where `execute` is set.
#[derive(Debug, Clone)]
pub struct CompileRequest {
    pub url: String,
    pub language: Language,
    pub compiler: String,
    pub source: String,
    pub user_arguments: String,
    pub tools: Vec<String>,
    pub libraries: Vec<LibraryRef>,
    pub execute: bool,
}

/// A request to store a session and get a short link to it.
#[derive(Debug, Clone)]
pub struct ShortlinkRequest {
    pub url: String,
    pub language: String,
    pub source: String,
    pub compiler: String,
    pub options: String,
    pub tools: Vec<String>,
    pub libraries: Vec<LibraryRef>,
}

/// What a `CompileRequest` holds, as plain values.
pub struct CompileRequestView {
    pub url: Seq<char>,
    pub language: Language,
    pub compiler: Seq<char>,
    pub source: Seq<char>,
    pub user_arguments: Seq<char>,
    pub tools: Seq<Seq<char>>,
    pub libraries: Seq<(Seq<char>, Seq<char>)>,
    pub execute: bool,
}

/// What a `ShortlinkRequest` holds, as plain values.
pub struct ShortlinkRequestView {
    pub url: Seq<char>,
    pub language: Seq<char>,
    pub source: Seq<char>,
    pub compiler: Seq<char>,
    pub options: Seq<char>,
    pub tools: Seq<Seq<char>>,
    pub libraries: Seq<(Seq<char>, Seq<char>)>,
}

/// The texts of a list of strings.
pub open spec fn texts_of(strings: Seq<String>) -> Seq<Seq<char>> {
    strings.map_values(|s: String| s@)
}

/// Identifier and version of each library of a list.
pub open spec fn library_views(libraries: Seq<LibraryRef>) -> Seq<(Seq<char>, Seq<char>)> {
    libraries.map_values(|library: LibraryRef| (library.id@, library.version@))
}

impl View for CompileRequest {
    type V = CompileRequestView;

    open spec fn view(&self) -> CompileRequestView {
        CompileRequestView {
            url: self.url@,
            language: self.language,
            compiler: self.compiler@,
            source: self.source@,
            user_arguments: self.user_arguments@,
            tools: texts_of(self.tools@),
            libraries: library_views(self.libraries@),
            execute: self.execute,
        }
    }
}

impl View for ShortlinkRequest {
    type V = ShortlinkRequestView;

    open spec fn view(&self) -> ShortlinkRequestView {
        ShortlinkRequestView {
            url: self.url@,
            language: self.language@,
            source: self.source@,
            compiler: self.compiler@,
            options: self.options@,
            tools: texts_of(self.tools@),
            libraries: library_views(self.libraries@),
        }
    }
}

/// Address to which a compile request for a compiler is sent.
pub open spec fn compile_url_view(compiler: Seq<char>) -> Seq<char> {
    "https://godbolt.org/api/compiler/"@ + compiler + "/compile"@
}

/// Address to which a request for a short link is sent.
pub open spec fn shortener_url_view() -> Seq<char> {
    "https://godbolt.org/api/shortener"@
}

/// The libraries that every request of a language attaches: three for C++, none for Rust.
pub open spec fn default_libraries(language: Language) -> Seq<(Seq<char>, Seq<char>)> {
    match language {
        Language::Cpp => seq![
            ("curl"@, "7831"@),
            ("range-v3"@, "trunk"@),
            ("fmt"@, "trunk"@),
        ],
        Language::Rust => Seq::empty(),
    }
}

/// The auxiliary tools of a request: the performance-analysis tool where its report is
/// wanted, none otherwise.
pub open spec fn requested_tools(run_llvm_mca: bool) -> Seq<Seq<char>> {
    if run_llvm_mca {
        seq![llvm_mca_tool_id()]
    } else {
        Seq::empty()
    }
}

/// The request that has a source compiled.
pub open spec fn compile_request_view(
    source: Seq<char>,
    compiler: Seq<char>,
    flags: Seq<char>,
    language: Language,
    run_llvm_mca: bool,
) -> CompileRequestView {
    CompileRequestView {
        url: compile_url_view(compiler),
        language,
        compiler,
        source,
        user_arguments: flags,
        tools: requested_tools(run_llvm_mca),
        libraries: default_libraries(language),
        execute: false,
    }
}

/// The request that has a C++ source compiled and run.
pub open spec fn run_request_view(
    source: Seq<char>,
    compiler: Seq<char>,
    flags: Seq<char>,
) -> CompileRequestView {
    CompileRequestView {
        url: compile_url_view(compiler),
        language: Language::Cpp,
        compiler,
        source,
        user_arguments: flags,
        tools: Seq::empty(),
        libraries: default_libraries(Language::Cpp),
        execute: true,
    }
}

/// The request that stores a session under a short link.
pub open spec fn shortlink_request_view(
    code: Seq<char>,
    compiler: Seq<char>,
    language: Language,
    flags: Seq<char>,
    run_llvm_mca: bool,
) -> ShortlinkRequestView {
    ShortlinkRequestView {
        url: shortener_url_view(),
        language: language.name_view(),
        source: code,
        compiler,
        options: flags,
        tools: requested_tools(run_llvm_mca),
        libraries: default_libraries(language),
    }
}

/// Address to which a compile request for a compiler is sent.
pub fn compile_url(compiler: &str) -> (url: String)
    ensures
        url@ == compile_url_view(compiler@),
{
    let mut url = String::new();
    url.append("https://godbolt.org/api/compiler/");
    url.append(compiler);
    url.append("/compile");
    assert(url@ =~= compile_url_view(compiler@));
    url
}

/// Address to which a request for a short link is sent.
pub fn shortener_url() -> (url: String)
    ensures
        url@ == shortener_url_view(),
{
    "https://godbolt.org/api/shortener".to_owned()
}

/// A library in one of its versions.
fn library(id: &str, version: &str) -> (r: LibraryRef)
    ensures
        r.id@ == id@,
        r.version@ == version@,
{
    LibraryRef { id: id.to_owned(), version: version.to_owned() }
}

/// The libraries that every request of a language attaches.
pub fn libraries_for(language: Language) -> (r: Vec<LibraryRef>)
    ensures
        library_views(r@) == default_libraries(language),
{
    let mut r: Vec<LibraryRef> = Vec::new();
    match language {
        Language::Cpp => {
            r.push(library("curl", "7831"));
            r.push(library("range-v3", "trunk"));
            r.push(library("fmt", "trunk"));
        },
        Language::Rust => {},
    }
    assert(library_views(r@) =~= default_libraries(language));
    r
}

/// The auxiliary tools of a request.
pub fn tools_for(run_llvm_mca: bool) -> (r: Vec<String>)
    ensures
        texts_of(r@) == requested_tools(run_llvm_mca),
{
    let mut r: Vec<String> = Vec::new();
    if run_llvm_mca {
        r.push(llvm_mca_tool().to_owned());
    }
    assert(texts_of(r@) =~= requested_tools(run_llvm_mca));
    r
}

/// The request that has `source_code` compiled by `compiler` with `flags`, and analysed
/// where `run_llvm_mca` is set.
pub fn compile_request(
    source_code: &str,
    compiler: &str,
    flags: &str,
    language: Language,
    run_llvm_mca: bool,
) -> (r: CompileRequest)
    ensures
        r@ == compile_request_view(source_code@, compiler@, flags@, language, run_llvm_mca),
{
    CompileRequest {
        url: compile_url(compiler),
        language,
        compiler: compiler.to_owned(),
        source: source_code.to_owned(),
        user_arguments: flags.to_owned(),
        tools: tools_for(run_llvm_mca),
        libraries: libraries_for(language),
        execute: false,
    }
}

/// The request that has the C++ program `source_code` compiled by `compiler` with `flags`,
/// and run.
pub fn run_request(source_code: &str, compiler: &str, flags: &str) -> (r: CompileRequest)
    ensures
        r@ == run_request_view(source_code@, compiler@, flags@),
{
    CompileRequest {
        url: compile_url(compiler),
        language: Language::Cpp,
        compiler: compiler.to_owned(),
        source: source_code.to_owned(),
        user_arguments: flags.to_owned(),
        tools: tools_for(false),
        libraries: libraries_for(Language::Cpp),
        execute: true,
    }
}

/// The request that stores `code`, with the compiler and flags it was compiled with, under
/// a short link.
pub fn shortlink_request(
    code: &str,
    compilerid: &str,
    language: Language,
    flags: &str,
    run_llvm_mca: bool,
) -> (r: ShortlinkRequest)
    ensures
        r@ == shortlink_request_view(code@, compilerid@, language, flags@, run_llvm_mca),
{
    ShortlinkRequest {
        url: shortener_url(),
        language: language.name().to_owned(),
        source: code.to_owned(),
        compiler: compilerid.to_owned(),
        options: flags.to_owned(),
        tools: tools_for(run_llvm_mca),
        libraries: libraries_for(language),
    }
}

/// The performance-analysis tool is asked for exactly when its report is wanted, and the
/// libraries depend on the language alone: the same three for every C++ request of any of the
/// three kinds, none for Rust.
pub proof fn lemma_request_policy(
    source: Seq<char>,
    compiler: Seq<char>,
    flags: Seq<char>,
    language: Language,
    run_llvm_mca: bool,
)
    ensures
        compile_request_view(source, compiler, flags, language, run_llvm_mca).tools.len() == (
        if run_llvm_mca {
            1nat
        } else {
            0nat
        }),
        compile_request_view(source, compiler, flags, language, run_llvm_mca).libraries
            == shortlink_request_view(source, compiler, language, flags, run_llvm_mca).libraries,
        compile_request_view(source, compiler, flags, Language::Cpp, run_llvm_mca).libraries
            == run_request_view(source, compiler, flags).libraries,
        default_libraries(Language::Cpp).len() == 3,
        default_libraries(Language::Rust).len() == 0,
{
}

} // verus!
