//! Selection of the compiler backend from the configured compiler name.
//!
//! Compiler names are compared after ASCII lower-casing. Every pattern below is
//! made of ASCII letters other than `i` and `k`, so Unicode lower-casing (which
//! maps no other non-ASCII character to an ASCII one) selects the same backend.
use vstd::prelude::*;

use crate::text::{contains, contains_str, lower, lower_exec, str_eq};

verus! {

/// The compiler backends.
#[derive(Clone, Copy, PartialEq, Eq, Structural, Debug)]
pub enum BuilderKind {
    /// GCC/Clang-style C and C++ compilers.
    Cc,
    /// MSVC `cl` and `clang-cl`.
    Msvc,
    /// NASM.
    Nasm,
    /// GNU `as`.
    Gas,
    /// Microsoft `ml`/`ml64`.
    Masm,
    /// FASM.
    Fasm,
    /// LLVM `llc` for LLVM IR.
    Llc,
}

/// Identifier of each backend.
pub open spec fn builder_id_spec(b: BuilderKind) -> Seq<char> {
    match b {
        BuilderKind::Cc => "cc"@,
        BuilderKind::Msvc => "msvc"@,
        BuilderKind::Nasm => "nasm"@,
        BuilderKind::Gas => "gas"@,
        BuilderKind::Masm => "masm"@,
        BuilderKind::Fasm => "fasm"@,
        BuilderKind::Llc => "llvm_ir"@,
    }
}

/// The backend for a lower-cased compiler name, by the first matching rule.
pub open spec fn builder_for_spec(compiler: Seq<char>) -> BuilderKind {
    let c = lower(compiler);
    if contains(c, "clang-cl"@) {
        BuilderKind::Msvc
    } else if c == "as"@ || contains(c, "gas"@) {
        BuilderKind::Gas
    } else if contains(c, "llc"@) {
        BuilderKind::Llc
    } else if contains(c, "fasm"@) {
        BuilderKind::Fasm
    } else if contains(c, "nasm"@) {
        BuilderKind::Nasm
    } else if c == "ml"@ || c == "ml64"@ || contains(c, "masm"@) {
        BuilderKind::Masm
    } else if c == "cl"@ || contains(c, "msvc"@) {
        BuilderKind::Msvc
    } else {
        BuilderKind::Cc
    }
}

/// The program probed to check that a compiler is installed.
pub open spec fn probe_name_spec(compiler: Seq<char>) -> Seq<char> {
    let c = lower(compiler);
    if compiler.len() == 0 {
        "cc"@
    } else if c == "gas"@ || c == "gnu-as"@ {
        "as"@
    } else if c == "nasm"@ {
        "nasm"@
    } else if c == "fasm"@ || c == "fasm64"@ {
        "fasm"@
    } else if c == "masm"@ || c == "ml"@ || c == "ml64"@ {
        "ml"@
    } else {
        compiler
    }
}

impl BuilderKind {
    /// Identifier of the backend.
    pub fn id(&self) -> (r: &'static str)
        ensures
            r@ == builder_id_spec(*self),
    {
        match self {
            BuilderKind::Cc => "cc",
            BuilderKind::Msvc => "msvc",
            BuilderKind::Nasm => "nasm",
            BuilderKind::Gas => "gas",
            BuilderKind::Masm => "masm",
            BuilderKind::Fasm => "fasm",
            BuilderKind::Llc => "llvm_ir",
        }
    }
}

/// Chooses the backend for `compiler`.
pub fn builder_for(compiler: &str) -> (r: BuilderKind)
    ensures
        r == builder_for_spec(compiler@),
{
    let lc = lower_exec(compiler);
    let c = lc.as_str();
    if contains_str(c, "clang-cl") {
        return BuilderKind::Msvc;
    }
    if str_eq(c, "as") || contains_str(c, "gas") {
        return BuilderKind::Gas;
    }
    if contains_str(c, "llc") {
        return BuilderKind::Llc;
    }
    if contains_str(c, "fasm") {
        return BuilderKind::Fasm;
    }
    if contains_str(c, "nasm") {
        return BuilderKind::Nasm;
    }
    if str_eq(c, "ml") || str_eq(c, "ml64") || contains_str(c, "masm") {
        return BuilderKind::Masm;
    }
    if str_eq(c, "cl") || contains_str(c, "msvc") {
        return BuilderKind::Msvc;
    }
    BuilderKind::Cc
}

/// The program whose `--version` tells whether `compiler` is installed.
pub fn compiler_probe_name(compiler: &str) -> (r: String)
    ensures
        r@ == probe_name_spec(compiler@),
{
    if crate::text::chars_of(compiler).len() == 0 {
        return String::from_str("cc");
    }
    let lc = lower_exec(compiler);
    let c = lc.as_str();
    if str_eq(c, "gas") || str_eq(c, "gnu-as") {
        String::from_str("as")
    } else if str_eq(c, "nasm") {
        String::from_str("nasm")
    } else if str_eq(c, "fasm") || str_eq(c, "fasm64") {
        String::from_str("fasm")
    } else if str_eq(c, "masm") || str_eq(c, "ml") || str_eq(c, "ml64") {
        String::from_str("ml")
    } else {
        String::from_str(compiler)
    }
}

/// Everything a backend needs to build one project.
pub struct BuildContext<'a> {
    pub profile: &'a str,
    pub project_name: &'a str,
    pub compiler: &'a str,
    pub language: &'a str,
    pub standard: &'a str,
    pub cxx_standard: &'a str,
    pub target: Option<&'a str>,
    pub target_dir: Option<&'a str>,
    pub kind: &'a str,
    pub platform: Option<&'a str>,
    pub linker: Option<&'a str>,
    pub archiver: Option<&'a str>,
    pub moc: Option<&'a str>,
    pub uic: Option<&'a str>,
    pub rcc: Option<&'a str>,
    pub package_type: Option<&'a str>,
    pub freestanding: bool,
    pub panic_abort: bool,
    pub codegen_units: usize,
    pub source_roots: &'a [String],
    pub exclude_dirs: &'a [String],
    pub include_paths: &'a [String],
    pub include_dirs: &'a [String],
    pub lib_dirs: &'a [String],
    pub libs: &'a [String],
    pub cflags: &'a [String],
    pub ldflags: &'a [String],
    pub output_filename: Option<&'a str>,
    pub output_extension: Option<&'a str>,
    pub verbose: bool,
    pub qt: bool,
}


/// The source extensions a backend compiles: the language's own for the C
/// compilers (`language_exts`), `asm` for NASM and MASM, `asm` and `fasm` for
/// FASM, `s` for GNU `as`, and `ll` for `llc`.
pub open spec fn backend_extensions_spec(kind: BuilderKind, language_exts: Seq<Seq<char>>) -> Seq<Seq<char>> {
    match kind {
        BuilderKind::Cc | BuilderKind::Msvc => language_exts,
        BuilderKind::Nasm | BuilderKind::Masm => seq!["asm"@],
        BuilderKind::Fasm => seq!["asm"@, "fasm"@],
        BuilderKind::Gas => seq!["s"@],
        BuilderKind::Llc => seq!["ll"@],
    }
}

/// The source extensions of a backend (see `backend_extensions_spec`).
pub fn backend_extensions(kind: BuilderKind, language_exts: Vec<&'static str>) -> (r: Vec<&'static str>)
    ensures
        crate::config::str_views(r@) == backend_extensions_spec(kind, crate::config::str_views(language_exts@)),
{
    let r: Vec<&'static str> = match kind {
        BuilderKind::Cc | BuilderKind::Msvc => language_exts,
        BuilderKind::Nasm | BuilderKind::Masm => vec!["asm"],
        BuilderKind::Fasm => vec!["asm", "fasm"],
        BuilderKind::Gas => vec!["s"],
        BuilderKind::Llc => vec!["ll"],
    };
    assert(crate::config::str_views(r@) =~= backend_extensions_spec(kind, crate::config::str_views(language_exts@)));
    r
}

} // verus!
