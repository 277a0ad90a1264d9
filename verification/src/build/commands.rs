//! Command lines of the compilers and assemblers that turn one source into
//! one object file.
use vstd::prelude::*;

use crate::build::artifact::is_flat_bin;
use crate::build::builder::BuildContext;
use crate::paths::{extension, extension_exec, with_extension, with_extension_exec};
use crate::platform::HostOs;
use crate::text::{
    concat2, contains, contains_str, has_prefix, lower, lower_exec, push_str_item, replace_all, replace_exec, starts_with,
    str_eq, trim, trim_exec, views,
};

verus! {

/// Flags an assembler accepts from `cflags`: include paths (`-I`, `-i`) and `-g`.
pub open spec fn is_asm_flag(f: Seq<char>) -> bool {
    has_prefix(f, "-I"@) || has_prefix(f, "-i"@) || f == "-g"@
}

/// The assembler flags of `flags`, in order.
pub open spec fn filter_asm_flags_spec(flags: Seq<Seq<char>>) -> Seq<Seq<char>>
    decreases flags.len(),
{
    if flags.len() == 0 {
        Seq::empty()
    } else {
        let rest = filter_asm_flags_spec(flags.drop_last());
        if is_asm_flag(flags.last()) {
            rest.push(flags.last())
        } else {
            rest
        }
    }
}

/// Keeps the flags an assembler accepts.
pub fn filter_asm_flags(flags: &[String]) -> (r: Vec<String>)
    ensures
        views(r@) == filter_asm_flags_spec(views(flags@)),
{
    let mut out: Vec<String> = Vec::new();
    let mut i: usize = 0;
    while i < flags.len()
        invariant
            i <= flags@.len(),
            views(out@) == filter_asm_flags_spec(views(flags@).take(i as int)),
        decreases flags.len() - i,
    {
        assert(views(flags@).take(i + 1).drop_last() =~= views(flags@).take(i as int));
        let f = flags[i].as_str();
        if starts_with(f, "-I") || starts_with(f, "-i") || str_eq(f, "-g") {
            push_str_item(&mut out, f);
        }
        i = i + 1;
    }
    assert(views(flags@).take(flags@.len() as int) =~= views(flags@));
    out
}

fn push_all(out: &mut Vec<String>, items: &Vec<String>)
    ensures
        views(final(out)@) == views(old(out)@) + views(items@),
{
    crate::text::extend_strings(out, items.as_slice());
}

/// A 32-bit x86 platform name: `x86`, or `i?86` (compared lower-cased with
/// `-` read as `_`; `char::to_lowercase` also maps the Kelvin sign to `k`).
pub open spec fn is_x86_32(p: Seq<char>) -> bool {
    ||| lower(p) == "x86"@
    ||| (p.len() == 4 && (p[0] == 'i' || p[0] == 'I') && ((p[1] as u32) < 128 || p[1] == '\u{212A}') && p[2] == '8'
        && p[3] == '6')
}

/// NASM's output format for the host and platform.
pub open spec fn nasm_format_spec(os: HostOs, platform: Option<Seq<char>>) -> Seq<char> {
    let x86 = match platform {
        Some(p) => is_x86_32(p),
        None => false,
    };
    if x86 {
        match os {
            HostOs::Macos => "macho32"@,
            HostOs::Windows => "win32"@,
            _ => "elf32"@,
        }
    } else {
        match os {
            HostOs::Macos => "macho64"@,
            HostOs::Windows => "win64"@,
            _ => "elf64"@,
        }
    }
}

fn is_x86_32_exec(p: &str) -> (r: bool)
    ensures
        r == is_x86_32(p@),
{
    let l = lower_exec(p);
    if str_eq(l.as_str(), "x86") {
        return true;
    }
    let v = crate::text::chars_of(p);
    v.len() == 4 && (v[0] == 'i' || v[0] == 'I') && ((v[1] as u32) < 128 || v[1] == '\u{212A}') && v[2] == '8' && v[3]
        == '6'
}

/// The output format NASM writes.
pub fn nasm_format(os: HostOs, platform: Option<&str>) -> (r: &'static str)
    ensures
        r@ == nasm_format_spec(os, crate::platform::opt_view(platform)),
{
    let x86 = match platform {
        Some(p) => is_x86_32_exec(p),
        None => false,
    };
    if x86 {
        match os {
            HostOs::Macos => "macho32",
            HostOs::Windows => "win32",
            _ => "elf32",
        }
    } else {
        match os {
            HostOs::Macos => "macho64",
            HostOs::Windows => "win64",
            _ => "elf64",
        }
    }
}

/// `nasm -f <format> <source> -o <object>` and the assembler flags; a flat
/// binary is written in the `bin` format.
pub open spec fn nasm_args_spec(os: HostOs, ctx: BuildContext, source: Seq<char>, obj: Seq<char>) -> Seq<Seq<char>> {
    let format = if ctx.kind@ == "flat-bin"@ {
        "bin"@
    } else {
        nasm_format_spec(os, crate::platform::opt_view(ctx.platform))
    };
    seq!["-f"@, format, source, "-o"@, obj] + filter_asm_flags_spec(views(ctx.cflags@))
}

/// The NASM arguments for one source.
pub fn nasm_args(os: HostOs, ctx: &BuildContext, source: &str, obj: &str) -> (r: Vec<String>)
    ensures
        views(r@) == nasm_args_spec(os, *ctx, source@, obj@),
{
    let format = if is_flat_bin(ctx.kind) {
        "bin"
    } else {
        nasm_format(os, ctx.platform)
    };
    let mut out: Vec<String> = Vec::new();
    push_str_item(&mut out, "-f");
    push_str_item(&mut out, format);
    push_str_item(&mut out, source);
    push_str_item(&mut out, "-o");
    push_str_item(&mut out, obj);
    let f = filter_asm_flags(ctx.cflags);
    push_all(&mut out, &f);
    out
}

/// `fasm <source> <object>` and the assembler flags.
pub fn fasm_args(ctx: &BuildContext, source: &str, obj: &str) -> (r: Vec<String>)
    ensures
        views(r@) == seq![source@, obj@] + filter_asm_flags_spec(views(ctx.cflags@)),
{
    let mut out: Vec<String> = Vec::new();
    push_str_item(&mut out, source);
    push_str_item(&mut out, obj);
    let f = filter_asm_flags(ctx.cflags);
    push_all(&mut out, &f);
    out
}

/// `as <source> -o <object>` and the assembler flags.
pub fn gas_args(ctx: &BuildContext, source: &str, obj: &str) -> (r: Vec<String>)
    ensures
        views(r@) == seq![source@, "-o"@, obj@] + filter_asm_flags_spec(views(ctx.cflags@)),
{
    let mut out: Vec<String> = Vec::new();
    push_str_item(&mut out, source);
    push_str_item(&mut out, "-o");
    push_str_item(&mut out, obj);
    let f = filter_asm_flags(ctx.cflags);
    push_all(&mut out, &f);
    out
}

/// `ml /nologo /c /Fo <object> <source>` and the assembler flags.
pub fn masm_args(ctx: &BuildContext, source: &str, obj: &str) -> (r: Vec<String>)
    ensures
        views(r@) == seq!["/nologo"@, "/c"@, "/Fo"@, obj@, source@] + filter_asm_flags_spec(views(ctx.cflags@)),
{
    let mut out: Vec<String> = Vec::new();
    push_str_item(&mut out, "/nologo");
    push_str_item(&mut out, "/c");
    push_str_item(&mut out, "/Fo");
    push_str_item(&mut out, obj);
    push_str_item(&mut out, source);
    let f = filter_asm_flags(ctx.cflags);
    push_all(&mut out, &f);
    out
}

/// `llc -filetype=obj <source> -o <object>` and every configured flag.
pub fn llvm_ir_args(ctx: &BuildContext, source: &str, obj: &str) -> (r: Vec<String>)
    ensures
        views(r@) == seq!["-filetype=obj"@, source@, "-o"@, obj@] + views(ctx.cflags@),
{
    let mut out: Vec<String> = Vec::new();
    push_str_item(&mut out, "-filetype=obj");
    push_str_item(&mut out, source);
    push_str_item(&mut out, "-o");
    push_str_item(&mut out, obj);
    crate::text::extend_strings(&mut out, ctx.cflags);
    out
}

// ---------------------------------------------------------------------------
// C and C++ compilers
// ---------------------------------------------------------------------------

/// The source is compiled as C++ by its extension.
pub open spec fn is_cpp_source(source: Seq<char>) -> bool {
    match extension(source) {
        Some(e) => e == "cpp"@ || e == "cxx"@ || e == "cc"@,
        None => false,
    }
}

/// The language is not assembly.
pub open spec fn not_asm(ctx: BuildContext) -> bool {
    lower(ctx.language@) != "asm"@
}

/// The flags that free-standing and no-unwind builds add.
pub open spec fn runtime_flags(ctx: BuildContext, bare_metal: bool) -> Seq<Seq<char>> {
    let free = if (ctx.freestanding || bare_metal) && not_asm(ctx) {
        seq!["-ffreestanding"@]
    } else {
        Seq::empty()
    };
    let panic = if ctx.panic_abort && not_asm(ctx) {
        (if contains(ctx.language@, "++"@) || contains(ctx.language@, "cpp"@) || contains(ctx.language@, "cxx"@) {
            seq!["-fno-exceptions"@]
        } else {
            Seq::empty()
        }) + seq!["-fno-unwind-tables"@, "-fno-asynchronous-unwind-tables"@]
    } else {
        Seq::empty()
    };
    free + panic
}

/// `-march=` for a platform that is set and not blank.
pub open spec fn march_flags(ctx: BuildContext) -> Seq<Seq<char>> {
    match ctx.platform {
        Some(p) => if trim(p@).len() > 0 {
            seq!["-march="@ + p@]
        } else {
            Seq::empty()
        },
        None => Seq::empty(),
    }
}

/// The `-std=` flag: the C++ standard for C++ sources (when set), the
/// language standard for others; none when no standard is set or for assembly.
pub open spec fn cc_std_flags(ctx: BuildContext, source: Seq<char>) -> Seq<Seq<char>> {
    if ctx.standard@.len() > 0 && not_asm(ctx) {
        if is_cpp_source(source) && ctx.cxx_standard@.len() > 0 {
            seq!["-std="@ + ctx.cxx_standard@]
        } else if !is_cpp_source(source) {
            seq!["-std="@ + ctx.standard@]
        } else {
            Seq::empty()
        }
    } else {
        Seq::empty()
    }
}

/// The compiler arguments for one C or C++ source: compile only, the language
/// flag when needed, source and object, position-independent code for shared
/// libraries, the free-standing and no-unwind flags, the architecture, the
/// standard, the profile's default flags (only when no `cflags` are set and the
/// build is hosted), the `cflags`, the include directories (and the Qt
/// generated directory), and the dependency file next to the object.
pub open spec fn cc_object_args_spec(
    ctx: BuildContext,
    source: Seq<char>,
    obj: Seq<char>,
    asm_flag: Option<Seq<char>>,
    bare_metal: bool,
    default_flags: Seq<Seq<char>>,
    qt_include: Option<Seq<char>>,
) -> Seq<Seq<char>> {
    cc_head(ctx, source, obj, asm_flag) + runtime_flags(ctx, bare_metal) + march_flags(ctx) + cc_std_flags(ctx, source)
        + cc_tail(ctx, obj, bare_metal, default_flags, qt_include)
}

/// Compile only, the language flag, source and object, and `-fPIC` for shared libraries.
pub open spec fn cc_head(ctx: BuildContext, source: Seq<char>, obj: Seq<char>, asm_flag: Option<Seq<char>>) -> Seq<Seq<char>> {
    seq!["-c"@] + (match asm_flag {
        Some(f) => seq!["-x"@, f],
        None => Seq::empty(),
    }) + seq![source, "-o"@, obj] + (if ctx.kind@ == "sharedlib"@ {
        seq!["-fPIC"@]
    } else {
        Seq::empty()
    })
}

/// The default flags (hosted builds without `cflags`), the `cflags`, the
/// include directories and the dependency file.
pub open spec fn cc_tail(
    ctx: BuildContext,
    obj: Seq<char>,
    bare_metal: bool,
    default_flags: Seq<Seq<char>>,
    qt_include: Option<Seq<char>>,
) -> Seq<Seq<char>> {
    (if views(ctx.cflags@).len() == 0 && !(ctx.freestanding || bare_metal) {
        default_flags
    } else {
        Seq::empty()
    }) + views(ctx.cflags@) + views(ctx.include_dirs@).map_values(|d: Seq<char>| "-I"@ + d) + (match qt_include {
        Some(q) => seq!["-I"@ + q],
        None => Seq::empty(),
    }) + seq!["-MMD"@, "-MF"@, with_extension(obj, "d"@)]
}

fn push_head(out: &mut Vec<String>, ctx: &BuildContext, source: &str, obj: &str, asm_flag: Option<&str>)
    ensures
        views(final(out)@) == views(old(out)@) + cc_head(*ctx, source@, obj@, crate::platform::opt_view(asm_flag)),
{
    let ghost o0 = views(out@);
    push_str_item(out, "-c");
    if let Some(f) = asm_flag {
        push_str_item(out, "-x");
        push_str_item(out, f);
    }
    push_str_item(out, source);
    push_str_item(out, "-o");
    push_str_item(out, obj);
    if str_eq(ctx.kind, "sharedlib") {
        push_str_item(out, "-fPIC");
    }
    assert(views(out@) =~= o0 + cc_head(*ctx, source@, obj@, crate::platform::opt_view(asm_flag)));
}

fn push_tail(
    out: &mut Vec<String>,
    ctx: &BuildContext,
    obj: &str,
    bare_metal: bool,
    default_flags: &[String],
    qt_include: Option<&str>,
)
    ensures
        views(final(out)@) == views(old(out)@) + cc_tail(
            *ctx,
            obj@,
            bare_metal,
            views(default_flags@),
            crate::platform::opt_view(qt_include),
        ),
{
    let ghost o0 = views(out@);
    if ctx.cflags.len() == 0 && !(ctx.freestanding || bare_metal) {
        crate::text::extend_strings(out, default_flags);
    }
    let ghost o1 = views(out@);
    crate::text::extend_strings(out, ctx.cflags);
    let ghost o2 = views(out@);
    push_include_flags(out, ctx.include_dirs);
    let ghost o3 = views(out@);
    if let Some(q) = qt_include {
        let f = concat2("-I", q);
        push_str_item(out, f.as_str());
    }
    let ghost o4 = views(out@);
    let d = with_extension_exec(obj, "d");
    push_str_item(out, "-MMD");
    push_str_item(out, "-MF");
    push_str_item(out, d.as_str());
    assert(views(out@) =~= o0 + cc_tail(*ctx, obj@, bare_metal, views(default_flags@), crate::platform::opt_view(qt_include)));
}

fn push_runtime_flags(out: &mut Vec<String>, ctx: &BuildContext, bare_metal: bool)
    ensures
        views(final(out)@) == views(old(out)@) + runtime_flags(*ctx, bare_metal),
{
    let ghost o0 = views(out@);
    let lang = lower_exec(ctx.language);
    let is_asm = str_eq(lang.as_str(), "asm");
    if (ctx.freestanding || bare_metal) && !is_asm {
        push_str_item(out, "-ffreestanding");
    }
    let ghost o1 = views(out@);
    if ctx.panic_abort && !is_asm {
        if contains_str(ctx.language, "++") || contains_str(ctx.language, "cpp") || contains_str(ctx.language, "cxx") {
            push_str_item(out, "-fno-exceptions");
        }
        push_str_item(out, "-fno-unwind-tables");
        push_str_item(out, "-fno-asynchronous-unwind-tables");
    }
    assert(views(out@) =~= o0 + runtime_flags(*ctx, bare_metal));
}

fn push_march_and_std(out: &mut Vec<String>, ctx: &BuildContext, source: &str)
    ensures
        views(final(out)@) == views(old(out)@) + march_flags(*ctx) + cc_std_flags(*ctx, source@),
{
    let ghost o0 = views(out@);
    if let Some(p) = ctx.platform {
        let t = trim_exec(p);
        if !t.as_str().is_empty() {
            let f = concat2("-march=", p);
            push_str_item(out, f.as_str());
        }
    }
    assert(views(out@) =~= o0 + march_flags(*ctx));
    let ghost o1 = views(out@);
    let lang = lower_exec(ctx.language);
    if !ctx.standard.is_empty() && !str_eq(lang.as_str(), "asm") {
        let is_cpp = match extension_exec(source) {
            Some(e) => str_eq(e.as_str(), "cpp") || str_eq(e.as_str(), "cxx") || str_eq(e.as_str(), "cc"),
            None => false,
        };
        if is_cpp && !ctx.cxx_standard.is_empty() {
            let f = concat2("-std=", ctx.cxx_standard);
            push_str_item(out, f.as_str());
        } else if !is_cpp {
            let f = concat2("-std=", ctx.standard);
            push_str_item(out, f.as_str());
        }
    }
    assert(views(out@) =~= o1 + cc_std_flags(*ctx, source@));
}

fn push_include_flags(out: &mut Vec<String>, dirs: &[String])
    ensures
        views(final(out)@) == views(old(out)@) + views(dirs@).map_values(|d: Seq<char>| "-I"@ + d),
{
    let ghost o0 = views(out@);
    let ghost m = views(dirs@).map_values(|d: Seq<char>| "-I"@ + d);
    let mut i: usize = 0;
    while i < dirs.len()
        invariant
            i <= dirs@.len(),
            m == views(dirs@).map_values(|d: Seq<char>| "-I"@ + d),
            views(out@) == o0 + m.take(i as int),
        decreases dirs.len() - i,
    {
        let f = concat2("-I", dirs[i].as_str());
        push_str_item(out, f.as_str());
        assert(m.take(i + 1) =~= m.take(i as int).push(m[i as int]));
        i = i + 1;
    }
    assert(m.take(dirs@.len() as int) =~= m);
}

/// The compiler arguments for one C or C++ source (`default_flags` are the
/// profile's defaults, `bare_metal` whether the target has no OS).
pub fn cc_object_args(
    ctx: &BuildContext,
    source: &str,
    obj: &str,
    asm_flag: Option<&str>,
    bare_metal: bool,
    default_flags: &[String],
    qt_include: Option<&str>,
) -> (r: Vec<String>)
    ensures
        views(r@) == cc_object_args_spec(
            *ctx,
            source@,
            obj@,
            crate::platform::opt_view(asm_flag),
            bare_metal,
            views(default_flags@),
            crate::platform::opt_view(qt_include),
        ),
{
    let mut out: Vec<String> = Vec::new();
    push_head(&mut out, ctx, source, obj, asm_flag);
    push_runtime_flags(&mut out, ctx, bare_metal);
    push_march_and_std(&mut out, ctx, source);
    push_tail(&mut out, ctx, obj, bare_metal, default_flags, qt_include);
    out
}


// ---------------------------------------------------------------------------
// MSVC
// ---------------------------------------------------------------------------

/// The `/std:` flag MSVC takes for a language standard: C11 and C17 for C,
/// C++11 to C++20 for C++ (C++23 as `c++latest`). Language and standard are
/// compared in lower case.
pub open spec fn msvc_standard_flag_spec(language: Seq<char>, standard: Seq<char>) -> Result<Seq<char>, Seq<char>> {
    let lang = lower(language);
    let std = lower(standard);
    if lang == "c"@ {
        if std == "c11"@ {
            Ok("/std:c11"@)
        } else if std == "c17"@ {
            Ok("/std:c17"@)
        } else {
            Err("Unsupported C standard for MSVC"@)
        }
    } else if lang == "c++"@ || lang == "cpp"@ || lang == "cxx"@ {
        if std == "c++11"@ {
            Ok("/std:c++11"@)
        } else if std == "c++14"@ {
            Ok("/std:c++14"@)
        } else if std == "c++17"@ {
            Ok("/std:c++17"@)
        } else if std == "c++20"@ {
            Ok("/std:c++20"@)
        } else if std == "c++23"@ {
            Ok("/std:c++latest"@)
        } else {
            Err("Unsupported C++ standard for MSVC"@)
        }
    } else {
        Err("Unsupported language"@)
    }
}

/// The MSVC standard flag (see `msvc_standard_flag_spec`).
pub fn msvc_standard_flag(language: &str, standard: &str) -> (r: Result<String, String>)
    ensures
        match msvc_standard_flag_spec(language@, standard@) {
            Ok(f) => r is Ok && r->Ok_0@ == f,
            Err(m) => r is Err && r->Err_0@ == m,
        },
{
    let l = lower_exec(language);
    let st = lower_exec(standard);
    let lang = l.as_str();
    let std = st.as_str();
    if str_eq(lang, "c") {
        if str_eq(std, "c11") {
            Ok(String::from_str("/std:c11"))
        } else if str_eq(std, "c17") {
            Ok(String::from_str("/std:c17"))
        } else {
            Err(String::from_str("Unsupported C standard for MSVC"))
        }
    } else if str_eq(lang, "c++") || str_eq(lang, "cpp") || str_eq(lang, "cxx") {
        if str_eq(std, "c++11") {
            Ok(String::from_str("/std:c++11"))
        } else if str_eq(std, "c++14") {
            Ok(String::from_str("/std:c++14"))
        } else if str_eq(std, "c++17") {
            Ok(String::from_str("/std:c++17"))
        } else if str_eq(std, "c++20") {
            Ok(String::from_str("/std:c++20"))
        } else if str_eq(std, "c++23") {
            Ok(String::from_str("/std:c++latest"))
        } else {
            Err(String::from_str("Unsupported C++ standard for MSVC"))
        }
    } else {
        Err(String::from_str("Unsupported language"))
    }
}

/// MSVC's flags for a built-in profile (none for another profile).
pub open spec fn msvc_profile_flags_spec(profile: Seq<char>) -> Seq<Seq<char>> {
    if profile == "release"@ {
        seq!["/O2"@, "/DNDEBUG"@]
    } else if profile == "debug"@ {
        seq!["/Od"@, "/Zi"@, "/W4"@, "/DDEBUG"@, "/Oy-"@]
    } else {
        Seq::empty()
    }
}

/// MSVC's flags for a profile.
pub fn msvc_profile_flags(profile: &str) -> (r: Vec<String>)
    ensures
        views(r@) == msvc_profile_flags_spec(profile@),
{
    let mut out: Vec<String> = Vec::new();
    if str_eq(profile, "release") {
        push_str_item(&mut out, "/O2");
        push_str_item(&mut out, "/DNDEBUG");
    } else if str_eq(profile, "debug") {
        push_str_item(&mut out, "/Od");
        push_str_item(&mut out, "/Zi");
        push_str_item(&mut out, "/W4");
        push_str_item(&mut out, "/DDEBUG");
        push_str_item(&mut out, "/Oy-");
    }
    assert(views(out@) =~= msvc_profile_flags_spec(profile@));
    out
}

/// The MSVC language switch: `/TC` for C, `/TP` for C++.
pub open spec fn msvc_language_switch_spec(language: Seq<char>) -> Option<Seq<char>> {
    let lang = lower(language);
    if lang == "c"@ {
        Some("/TC"@)
    } else if lang == "c++"@ || lang == "cpp"@ || lang == "cxx"@ {
        Some("/TP"@)
    } else {
        None
    }
}

/// The arguments of an MSVC compile of `source` into `obj`: `/nologo`, the
/// language switch, the standard flag when a standard is set, the profile's
/// flags, `/c`, the source and `/Fo:<obj>`. Refused for a language or a
/// standard MSVC is not given here.
pub open spec fn msvc_compile_args_spec(
    language: Seq<char>,
    standard: Seq<char>,
    profile: Seq<char>,
    source: Seq<char>,
    obj: Seq<char>,
) -> Result<Seq<Seq<char>>, Seq<char>> {
    match msvc_language_switch_spec(language) {
        None => Err("Unsupported language"@),
        Some(sw) => {
            let std: Result<Seq<Seq<char>>, Seq<char>> = if standard.len() == 0 {
                Ok(Seq::empty())
            } else {
                match msvc_standard_flag_spec(language, standard) {
                    Ok(f) => Ok(seq![f]),
                    Err(m) => Err(m),
                }
            };
            match std {
                Err(m) => Err(m),
                Ok(sf) => Ok(seq!["/nologo"@, sw] + sf + msvc_profile_flags_spec(profile) + seq![
                    "/c"@,
                    source,
                    "/Fo:"@ + obj,
                ]),
            }
        },
    }
}

/// The arguments of an MSVC compile (see `msvc_compile_args_spec`).
pub fn msvc_compile_args(language: &str, standard: &str, profile: &str, source: &str, obj: &str) -> (r: Result<
    Vec<String>,
    String,
>)
    ensures
        match msvc_compile_args_spec(language@, standard@, profile@, source@, obj@) {
            Ok(a) => r is Ok && views(r->Ok_0@) == a,
            Err(m) => r is Err && r->Err_0@ == m,
        },
{
    let l = lower_exec(language);
    let sw = if str_eq(l.as_str(), "c") {
        "/TC"
    } else if str_eq(l.as_str(), "c++") || str_eq(l.as_str(), "cpp") || str_eq(l.as_str(), "cxx") {
        "/TP"
    } else {
        return Err(String::from_str("Unsupported language"));
    };
    let mut out: Vec<String> = Vec::new();
    push_str_item(&mut out, "/nologo");
    push_str_item(&mut out, sw);
    let ghost head = views(out@);
    if !standard.is_empty() {
        match msvc_standard_flag(language, standard) {
            Ok(f) => push_str_item(&mut out, f.as_str()),
            Err(m) => return Err(m),
        }
    }
    proof {
        reveal_strlit("");
    }
    let ghost mid = views(out@);
    let pf = msvc_profile_flags(profile);
    push_all(&mut out, &pf);
    push_str_item(&mut out, "/c");
    push_str_item(&mut out, source);
    let fo = concat2("/Fo:", obj);
    push_str_item(&mut out, fo.as_str());
    proof {
        let sf: Seq<Seq<char>> = if standard@.len() == 0 {
            Seq::empty()
        } else {
            seq![msvc_standard_flag_spec(language@, standard@)->Ok_0]
        };
        assert(mid =~= seq!["/nologo"@, sw@] + sf);
        assert(views(out@) =~= seq!["/nologo"@, sw@] + sf + msvc_profile_flags_spec(profile@) + seq![
            "/c"@,
            source@,
            "/Fo:"@ + obj@,
        ]);
    }
    Ok(out)
}

} // verus!
