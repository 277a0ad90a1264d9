//! Source languages and the tokens that select them in `build.language`.
use vstd::prelude::*;

use crate::config::str_views;
use crate::text::{lower, lower_exec, str_eq};

verus! {

/// Behaviour common to every source language.
pub trait Language {
    /// Stable identifier.
    fn id(&self) -> &'static str;

    /// Source file extensions, without the dot.
    fn extensions(&self) -> Vec<&'static str>;

    /// Whether a `build.language` token selects this language.
    fn matches_token(&self, token: &str) -> bool;
}

/// The C language.
pub struct C;

/// The C++ language.
pub struct Cxx;

/// Assembly.
pub struct Asm;

/// LLVM IR text files.
pub struct LlvmIr;

/// One of the supported languages.
#[derive(Clone, Copy, PartialEq, Eq, Structural, Debug)]
pub enum LanguageId {
    C,
    Cxx,
    Asm,
    LlvmIr,
}

/// Identifier of each language.
pub open spec fn id_spec(l: LanguageId) -> Seq<char> {
    match l {
        LanguageId::C => "c"@,
        LanguageId::Cxx => "cxx"@,
        LanguageId::Asm => "asm"@,
        LanguageId::LlvmIr => "llvm_ir"@,
    }
}

/// Extensions of each language.
pub open spec fn extensions_spec(l: LanguageId) -> Seq<Seq<char>> {
    match l {
        LanguageId::C => seq!["c"@],
        LanguageId::Cxx => seq!["cpp"@, "cxx"@, "cc"@],
        LanguageId::Asm => seq!["s"@, "S"@, "asm"@],
        LanguageId::LlvmIr => seq!["ll"@],
    }
}

/// Whether `token` selects language `l`, comparing the lower-cased token.
pub open spec fn matches_token_spec(l: LanguageId, token: Seq<char>) -> bool {
    match l {
        LanguageId::C => lower(token) == "c"@,
        LanguageId::Cxx => lower(token) == "c++"@ || lower(token) == "cpp"@ || lower(token) == "cxx"@,
        LanguageId::Asm => lower(token) == "asm"@,
        LanguageId::LlvmIr => lower(token) == "llvm_ir"@ || lower(token) == "llvm-ir"@ || lower(token) == "ll"@,
    }
}

/// The languages in lookup order.
pub open spec fn languages_spec() -> Seq<LanguageId> {
    seq![LanguageId::C, LanguageId::Cxx, LanguageId::Asm, LanguageId::LlvmIr]
}

/// The first language (in lookup order) that `token` selects.
pub open spec fn language_for_token_spec(token: Seq<char>) -> Option<LanguageId> {
    if matches_token_spec(LanguageId::C, token) {
        Some(LanguageId::C)
    } else if matches_token_spec(LanguageId::Cxx, token) {
        Some(LanguageId::Cxx)
    } else if matches_token_spec(LanguageId::Asm, token) {
        Some(LanguageId::Asm)
    } else if matches_token_spec(LanguageId::LlvmIr, token) {
        Some(LanguageId::LlvmIr)
    } else {
        None
    }
}

impl LanguageId {
    /// Stable identifier.
    pub fn id(&self) -> (r: &'static str)
        ensures
            r@ == id_spec(*self),
    {
        match self {
            LanguageId::C => "c",
            LanguageId::Cxx => "cxx",
            LanguageId::Asm => "asm",
            LanguageId::LlvmIr => "llvm_ir",
        }
    }

    /// Source file extensions.
    pub fn extensions(&self) -> (r: Vec<&'static str>)
        ensures
            str_views(r@) == extensions_spec(*self),
    {
        let v = match self {
            LanguageId::C => vec!["c"],
            LanguageId::Cxx => vec!["cpp", "cxx", "cc"],
            LanguageId::Asm => vec!["s", "S", "asm"],
            LanguageId::LlvmIr => vec!["ll"],
        };
        assert(str_views(v@) =~= extensions_spec(*self));
        v
    }

    /// Whether `token` selects this language.
    pub fn matches_token(&self, token: &str) -> (r: bool)
        ensures
            r == matches_token_spec(*self, token@),
    {
        match self {
            LanguageId::C => {
                let l = lower_exec(token);
                str_eq(l.as_str(), "c")
            },
            LanguageId::Cxx => {
                let l = lower_exec(token);
                str_eq(l.as_str(), "c++") || str_eq(l.as_str(), "cpp") || str_eq(l.as_str(), "cxx")
            },
            LanguageId::Asm => {
                let l = lower_exec(token);
                str_eq(l.as_str(), "asm")
            },
            LanguageId::LlvmIr => {
                let l = lower_exec(token);
                str_eq(l.as_str(), "llvm_ir") || str_eq(l.as_str(), "llvm-ir") || str_eq(l.as_str(), "ll")
            },
        }
    }
}

impl Language for C {
    fn id(&self) -> &'static str {
        LanguageId::C.id()
    }

    fn extensions(&self) -> Vec<&'static str> {
        LanguageId::C.extensions()
    }

    fn matches_token(&self, token: &str) -> bool {
        LanguageId::C.matches_token(token)
    }
}

impl Language for Cxx {
    fn id(&self) -> &'static str {
        LanguageId::Cxx.id()
    }

    fn extensions(&self) -> Vec<&'static str> {
        LanguageId::Cxx.extensions()
    }

    fn matches_token(&self, token: &str) -> bool {
        LanguageId::Cxx.matches_token(token)
    }
}

impl Language for Asm {
    fn id(&self) -> &'static str {
        LanguageId::Asm.id()
    }

    fn extensions(&self) -> Vec<&'static str> {
        LanguageId::Asm.extensions()
    }

    fn matches_token(&self, token: &str) -> bool {
        LanguageId::Asm.matches_token(token)
    }
}

impl Language for LlvmIr {
    fn id(&self) -> &'static str {
        LanguageId::LlvmIr.id()
    }

    fn extensions(&self) -> Vec<&'static str> {
        LanguageId::LlvmIr.extensions()
    }

    fn matches_token(&self, token: &str) -> bool {
        LanguageId::LlvmIr.matches_token(token)
    }
}

/// All languages, in lookup order.
pub fn languages() -> (r: [LanguageId; 4])
    ensures
        r@ == languages_spec(),
{
    let r = [LanguageId::C, LanguageId::Cxx, LanguageId::Asm, LanguageId::LlvmIr];
    assert(r@ =~= languages_spec());
    r
}

/// The first language that `token` selects, if any.
pub fn language_for_token(token: &str) -> (r: Option<LanguageId>)
    ensures
        r == language_for_token_spec(token@),
{
    let all = languages();
    let mut i: usize = 0;
    while i < 4
        invariant
            i <= 4,
            all@ == languages_spec(),
            forall|j: int| 0 <= j < i ==> !matches_token_spec(#[trigger] languages_spec()[j], token@),
        decreases 4 - i,
    {
        if all[i].matches_token(token) {
            return Some(all[i]);
        }
        i = i + 1;
    }
    None
}

} // verus!
