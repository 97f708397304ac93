//! The source languages that can be compiled.

use vstd::prelude::*;
use crate::text::str_eq;

verus! {

/// A source language of the compiler service.
#[derive(Debug, Clone, Copy, PartialEq, Eq, Structural)]
pub enum Language {
    Rust,
    Cpp,
}

/// The language that the service knows under `name`, if any.
pub open spec fn language_named(name: Seq<char>) -> Option<Language> {
    if name == "rust"@ {
        Some(Language::Rust)
    } else if name == "c++"@ {
        Some(Language::Cpp)
    } else {
        None
    }
}

impl Language {
    /// The name under which the service knows the language.
    pub open spec fn name_view(self) -> Seq<char> {
        match self {
            Language::Rust => "rust"@,
            Language::Cpp => "c++"@,
        }
    }

    /// The name under which the service knows the language.
    pub fn name(self) -> (r: &'static str)
        ensures
            r@ == self.name_view(),
    {
        match self {
            Language::Rust => "rust",
            Language::Cpp => "c++",
        }
    }

    /// The language of that name: `rust` or `c++`.
    pub fn from_name(name: &str) -> (r: Option<Language>)
        ensures
            r == language_named(name@),
    {
        if str_eq(name, "rust") {
            Some(Language::Rust)
        } else if str_eq(name, "c++") {
            Some(Language::Cpp)
        } else {
            None
        }
    }
}

/// Each language is found again under its own name.
pub proof fn lemma_language_name_round_trip(language: Language)
    ensures
        language_named(language.name_view()) == Some(language),
{
    reveal_strlit("rust");
    reveal_strlit("c++");
    if language == Language::Cpp {
        assert("c++"@[0] != "rust"@[0]);
    }
}

} // verus!
