//! From what a caller asks for to what the compiler service understands: the identifier of
//! a compiler and the flags to hand to it.

use vstd::prelude::*;
use crate::language::{language_named, Language};
use crate::targets::{target_views, GodboltMetadata, GodboltTarget, TargetView};
use crate::text::{concat2, str_trim, trim};

verus! {

/// Which artifact of a compilation the caller wants to see.
#[derive(Debug, Clone, Copy, PartialEq, Eq, Structural)]
pub enum GodboltMode {
    Asm,
    LlvmIr,
    Mca,
}

impl GodboltMode {
    /// The performance-analysis tool is run exactly where its report is what the caller wants
    /// to see.
    pub open spec fn wants_analysis(self) -> bool {
        self == GodboltMode::Mca
    }

    /// Whether the service is asked to run the performance-analysis tool.
    pub fn runs_llvm_mca(self) -> (r: bool)
        ensures
            r == self.wants_analysis(),
    {
        self == GodboltMode::Mca
    }
}

/// The free-form parameters of a request that the resolver reads.
#[derive(Debug, Clone)]
pub struct Params {
    pub language: Option<String>,
    pub rustc: Option<String>,
    pub compiler: Option<String>,
    pub flags: Option<String>,
}

/// Why a request could not be resolved.
#[derive(Debug, Clone, Copy, PartialEq, Eq, Structural)]
pub enum ResolveError {
    /// The language is neither `rust` nor `c++`.
    UnsupportedLanguage,
    /// No Rust target has the requested version label.
    UnknownRustc,
    /// No C++ target has the requested identifier.
    UnknownCompiler,
}

/// The text of an optional string.
pub open spec fn text_of(value: Option<String>) -> Option<Seq<char>> {
    match value {
        Some(s) => Some(s@),
        None => None,
    }
}

/// The language that is compiled where the request names none.
pub open spec fn default_language() -> Seq<char> {
    "rust"@
}

/// The Rust version that is used where the request names none.
pub open spec fn default_rustc() -> Seq<char> {
    "nightly"@
}

/// The C++ compiler that is used where the request names none.
pub open spec fn default_compiler() -> Seq<char> {
    "clang_trunk"@
}

/// The flags for Rust where the request gives none.
pub open spec fn default_rust_flags() -> Seq<char> {
    "-Copt-level=3 --edition=2021"@
}

/// The flags for C++ where the request gives none.
pub open spec fn default_cpp_flags() -> Seq<char> {
    "-std=c++20 -O3"@
}

/// What is added to the flags to have the intermediate representation emitted, without debug
/// information.
pub open spec fn llvm_ir_suffix() -> Seq<char> {
    " --emit=llvm-ir -Cdebuginfo=0"@
}

/// The flags where the request gives none.
pub open spec fn default_flags(language: Language) -> Seq<char> {
    match language {
        Language::Rust => default_rust_flags(),
        Language::Cpp => default_cpp_flags(),
    }
}

/// The selector where the request gives none.
pub open spec fn default_selector(language: Language) -> Seq<char> {
    match language {
        Language::Rust => default_rustc(),
        Language::Cpp => default_compiler(),
    }
}

/// The requested value, or the default where nothing was requested.
pub open spec fn or_default(requested: Option<Seq<char>>, default: Seq<char>) -> Seq<char> {
    match requested {
        Some(text) => text,
        None => default,
    }
}

/// The flags that are sent: those of the request as they are, or the language's defaults
/// where it gives none, and behind them the suffix for the intermediate representation where
/// that is what the caller wants to see.
pub open spec fn resolved_flags(
    language: Language,
    requested: Option<Seq<char>>,
    mode: GodboltMode,
) -> Seq<char> {
    let base = or_default(requested, default_flags(language));
    if mode == GodboltMode::LlvmIr {
        base + llvm_ir_suffix()
    } else {
        base
    }
}

/// The text by which targets are looked up: what was requested, or the language's default,
/// without the white space around it.
pub open spec fn selector(language: Language, requested: Option<Seq<char>>) -> Seq<char> {
    trim(or_default(requested, default_selector(language)))
}

/// The text of a target that a selector is compared with: the version label for Rust, the
/// identifier for C++.
pub open spec fn lookup_key(language: Language, target: TargetView) -> Seq<char> {
    match language {
        Language::Rust => target.semver,
        Language::Cpp => target.id,
    }
}

/// The lookup keys of the targets, in order.
pub open spec fn lookup_keys(language: Language, targets: Seq<TargetView>) -> Seq<Seq<char>> {
    targets.map_values(|t: TargetView| lookup_key(language, t))
}

/// The error for a selector that no target of the language matches.
pub open spec fn no_match_error(language: Language) -> ResolveError {
    match language {
        Language::Rust => ResolveError::UnknownRustc,
        Language::Cpp => ResolveError::UnknownCompiler,
    }
}

/// What a selector resolves to among the given targets: identifier and flags of the first
/// target whose key equals the selector, or the error where no target's does.
pub open spec fn resolution_for(
    language: Language,
    targets: Seq<TargetView>,
    key: Seq<char>,
    flags: Option<Seq<char>>,
    mode: GodboltMode,
) -> Result<(Seq<char>, Seq<char>), ResolveError> {
    match lookup_keys(language, targets).index_of_first(key) {
        Some(i) => Ok((targets[i].id, resolved_flags(language, flags, mode))),
        None => Err(no_match_error(language)),
    }
}

/// What a request resolves to among the given targets: what its selector resolves to, the
/// selector being what was requested or the language's default, without the white space
/// around it.
pub open spec fn resolution(
    language: Language,
    targets: Seq<TargetView>,
    requested: Option<Seq<char>>,
    flags: Option<Seq<char>>,
    mode: GodboltMode,
) -> Result<(Seq<char>, Seq<char>), ResolveError> {
    resolution_for(language, targets, selector(language, requested), flags, mode)
}

/// The texts of a resolved pair.
pub open spec fn resolved_view(r: Result<(String, String), ResolveError>) -> Result<
    (Seq<char>, Seq<char>),
    ResolveError,
> {
    match r {
        Ok((id, flags)) => Ok((id@, flags@)),
        Err(e) => Err(e),
    }
}

impl ResolveError {
    /// The message for the caller; it names the command that lists the valid selectors.
    pub open spec fn message_view(self) -> Seq<char> {
        match self {
            ResolveError::UnsupportedLanguage => "Unsupported language. Valid: 'rust', 'c++'."@,
            ResolveError::UnknownRustc =>
                "the `rustc` argument should be a version specifier like `nightly` `beta` or `1.45.2`. Run ?targets_rust for a full list"@,
            ResolveError::UnknownCompiler =>
                "the `compiler` argument should be a id specifier like `clang_trunk` `gsnapshot` or `g122`. Run ?targets_cpp  for a full list"@,
        }
    }

    /// The message for the caller.
    pub fn message(&self) -> (r: String)
        ensures
            r@ == self.message_view(),
    {
        match self {
            ResolveError::UnsupportedLanguage => "Unsupported language. Valid: 'rust', 'c++'.".to_owned(),
            ResolveError::UnknownRustc =>
                "the `rustc` argument should be a version specifier like `nightly` `beta` or `1.45.2`. Run ?targets_rust for a full list".to_owned(),
            ResolveError::UnknownCompiler =>
                "the `compiler` argument should be a id specifier like `clang_trunk` `gsnapshot` or `g122`. Run ?targets_cpp  for a full list".to_owned(),
        }
    }
}

/// The text of an optional string, or the default where there is none.
fn text_or<'a>(value: &'a Option<String>, default: &'a str) -> (r: &'a str)
    ensures
        r@ == or_default(text_of(*value), default@),
{
    match value {
        Some(s) => s.as_str(),
        None => default,
    }
}

/// The flags that are sent for a request.
pub fn flags_for(language: Language, requested: &Option<String>, mode: GodboltMode) -> (r:
    String)
    ensures
        r@ == resolved_flags(language, text_of(*requested), mode),
{
    let default = match language {
        Language::Rust => "-Copt-level=3 --edition=2021",
        Language::Cpp => "-std=c++20 -O3",
    };
    let base = text_or(requested, default);
    if mode == GodboltMode::LlvmIr {
        concat2(base, " --emit=llvm-ir -Cdebuginfo=0")
    } else {
        base.to_owned()
    }
}

/// The position of the first target whose key equals `key`.
fn position_of(language: Language, targets: &Vec<GodboltTarget>, key: &str) -> (r: Option<usize>)
    ensures
        match r {
            Some(i) => {
                &&& i < targets.len()
                &&& lookup_keys(language, target_views(targets@)).index_of_first(key@) == Some(
                    i as int,
                )
            },
            None => lookup_keys(language, target_views(targets@)).index_of_first(key@) is None,
        },
{
    let ghost keys = lookup_keys(language, target_views(targets@));
    let wanted = key.to_owned();
    let mut i: usize = 0;
    while i < targets.len()
        invariant
            i <= targets.len(),
            wanted@ == key@,
            keys == lookup_keys(language, target_views(targets@)),
            forall|j: int| 0 <= j < i ==> keys[j] != key@,
        decreases targets.len() - i,
    {
        let target = &targets[i];
        assert(keys[i as int] == lookup_key(language, target@));
        let hit = match language {
            Language::Rust => target.semver == wanted,
            Language::Cpp => target.id == wanted,
        };
        if hit {
            proof {
                keys.index_of_first_ensures(key@);
            }
            return Some(i);
        }
        i += 1;
    }
    proof {
        keys.index_of_first_ensures(key@);
    }
    None
}

/// Resolves a selector among the targets of one language. The selector is compared as it
/// is.
pub fn resolve_selector(
    language: Language,
    targets: &Vec<GodboltTarget>,
    key: &str,
    flags: &Option<String>,
    mode: GodboltMode,
) -> (r: Result<(String, String), ResolveError>)
    ensures
        resolved_view(r) == resolution_for(
            language,
            target_views(targets@),
            key@,
            text_of(*flags),
            mode,
        ),
{
    match position_of(language, targets, key) {
        Some(i) => Ok((targets[i].id.clone(), flags_for(language, flags, mode))),
        None => Err(
            match language {
                Language::Rust => ResolveError::UnknownRustc,
                Language::Cpp => ResolveError::UnknownCompiler,
            },
        ),
    }
}

/// Resolves a request among the targets of one language.
pub fn resolve_among(
    language: Language,
    targets: &Vec<GodboltTarget>,
    requested: &Option<String>,
    flags: &Option<String>,
    mode: GodboltMode,
) -> (r: Result<(String, String), ResolveError>)
    ensures
        resolved_view(r) == resolution(
            language,
            target_views(targets@),
            text_of(*requested),
            text_of(*flags),
            mode,
        ),
{
    let default = match language {
        Language::Rust => "nightly",
        Language::Cpp => "clang_trunk",
    };
    let key = str_trim(text_or(requested, default));
    resolve_selector(language, targets, key, flags, mode)
}

/// Compiler identifier and flags for Rust: the target is found by its version label.
pub fn rustc_id_and_flags(data: &GodboltMetadata, params: &Params, mode: GodboltMode) -> (r:
    Result<(String, String), ResolveError>)
    ensures
        resolved_view(r) == resolution(
            Language::Rust,
            target_views(data.target_list()),
            text_of(params.rustc),
            text_of(params.flags),
            mode,
        ),
{
    resolve_among(Language::Rust, data.targets(), &params.rustc, &params.flags, mode)
}

/// Compiler identifier and flags for C++: the target is found by its identifier.
pub fn cpp_id_and_flags(data: &GodboltMetadata, params: &Params, mode: GodboltMode) -> (r:
    Result<(String, String), ResolveError>)
    ensures
        resolved_view(r) == resolution(
            Language::Cpp,
            target_views(data.target_list()),
            text_of(params.compiler),
            text_of(params.flags),
            mode,
        ),
{
    resolve_among(Language::Cpp, data.targets(), &params.compiler, &params.flags, mode)
}

/// Compiler identifier and flags for a request in the language of that name, among the
/// targets of that language's catalog.
pub fn compiler_id_and_flags(
    rust_targets: &GodboltMetadata,
    cpp_targets: &GodboltMetadata,
    params: &Params,
    language: &str,
    mode: GodboltMode,
) -> (r: Result<(String, String), ResolveError>)
    ensures
        resolved_view(r) == match language_named(language@) {
            Some(Language::Rust) => resolution(
                Language::Rust,
                target_views(rust_targets.target_list()),
                text_of(params.rustc),
                text_of(params.flags),
                mode,
            ),
            Some(Language::Cpp) => resolution(
                Language::Cpp,
                target_views(cpp_targets.target_list()),
                text_of(params.compiler),
                text_of(params.flags),
                mode,
            ),
            None => Err(ResolveError::UnsupportedLanguage),
        },
{
    match Language::from_name(language) {
        Some(Language::Rust) => rustc_id_and_flags(rust_targets, params, mode),
        Some(Language::Cpp) => cpp_id_and_flags(cpp_targets, params, mode),
        None => Err(ResolveError::UnsupportedLanguage),
    }
}

/// The name of the language that a request is in: the one that it names, or `rust`.
pub fn requested_language(params: &Params) -> (r: &str)
    ensures
        r@ == or_default(text_of(params.language), default_language()),
{
    text_or(&params.language, "rust")
}

/// A selector that no target matches is refused, and one that a target matches resolves to
/// the identifier stored with the first such target.
pub proof fn lemma_resolution_matches(
    language: Language,
    targets: Seq<TargetView>,
    key: Seq<char>,
    flags: Option<Seq<char>>,
    mode: GodboltMode,
)
    ensures
        match resolution_for(language, targets, key, flags, mode) {
            Ok((id, _)) => exists|i: int|
                0 <= i < targets.len() && lookup_key(language, #[trigger] targets[i]) == key && id
                    == targets[i].id && forall|j: int|
                    0 <= j < i ==> lookup_key(language, #[trigger] targets[j]) != key,
            Err(e) => e == no_match_error(language) && forall|i: int|
                0 <= i < targets.len() ==> lookup_key(language, #[trigger] targets[i]) != key,
        },
{
    let keys = lookup_keys(language, targets);
    keys.index_of_first_ensures(key);
    match keys.index_of_first(key) {
        Some(i) => {
            assert(keys[i] == lookup_key(language, targets[i]));
            assert forall|j: int| 0 <= j < i implies lookup_key(language, #[trigger] targets[j])
                != key by {
                assert(keys[j] == lookup_key(language, targets[j]));
            }
        },
        None => {
            assert forall|i: int| 0 <= i < targets.len() implies lookup_key(
                language,
                #[trigger] targets[i],
            ) != key by {
                assert(keys[i] == lookup_key(language, targets[i]));
                assert(keys.contains(keys[i]));
            }
        },
    }
}

/// A selector that is the key of one of the targets is never refused, and one that is the key
/// of none always is.
pub proof fn lemma_resolution_succeeds_iff_present(
    language: Language,
    targets: Seq<TargetView>,
    key: Seq<char>,
    flags: Option<Seq<char>>,
    mode: GodboltMode,
)
    ensures
        resolution_for(language, targets, key, flags, mode) is Ok <==> exists|i: int|
            0 <= i < targets.len() && lookup_key(language, #[trigger] targets[i]) == key,
{
    lemma_resolution_matches(language, targets, key, flags, mode);
}

/// Where the intermediate representation is asked for, the flags end with the suffix that
/// requests it, and what stands before the suffix is what the caller gave or the language's
/// defaults; in the other modes nothing is added.
pub proof fn lemma_llvm_ir_flags(language: Language, requested: Option<Seq<char>>, mode: GodboltMode)
    ensures
        mode == GodboltMode::LlvmIr ==> resolved_flags(language, requested, mode) == or_default(
            requested,
            default_flags(language),
        ) + llvm_ir_suffix(),
        mode == GodboltMode::LlvmIr ==> llvm_ir_suffix().is_suffix_of(
            resolved_flags(language, requested, mode),
        ),
        mode != GodboltMode::LlvmIr ==> resolved_flags(language, requested, mode) == or_default(
            requested,
            default_flags(language),
        ),
{
    if mode == GodboltMode::LlvmIr {
        let base = or_default(requested, default_flags(language));
        let all = base + llvm_ir_suffix();
        assert(all.skip(all.len() - llvm_ir_suffix().len()) =~= llvm_ir_suffix());
    }
}

} // verus!
