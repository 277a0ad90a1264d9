//! Where build artifacts are placed, and the linker and archiver command lines.
use vstd::prelude::*;

use super::builder::BuildContext;
use crate::paths::{file_stem, file_stem_exec, join, join_exec, is_absolute, is_absolute_exec};
use crate::platform::{
    bin_path, bin_path_spec, efi_path, efi_path_spec, elf_path, elf_path_spec, lib_path, lib_path_spec,
    opt_view, shared_lib_path, shared_lib_path_spec, Host, HostOs,
};
use crate::text::{concat2, concat3, contains, contains_str, has_prefix, has_suffix, lower, lower_exec, own, str_eq, views};

verus! {

/// The kind of a flat binary image (raw bytes produced by `objcopy`).
pub open spec fn is_flat_bin_spec(kind: Seq<char>) -> bool {
    kind == "flat-bin"@
}

/// Whether `kind` is a flat binary image.
pub fn is_flat_bin(kind: &str) -> (r: bool)
    ensures
        r == is_flat_bin_spec(kind@),
{
    str_eq(kind, "flat-bin")
}

/// `<name>.<ext>`, or `<name>` when `ext` is empty.
pub open spec fn dotted_spec(name: Seq<char>, ext: Seq<char>) -> Seq<char> {
    if ext.len() == 0 {
        name
    } else {
        name + "."@ + ext
    }
}

fn dotted(name: &str, ext: &str) -> (r: String)
    ensures
        r@ == dotted_spec(name@, ext@),
{
    if crate::text::chars_of(ext).len() == 0 {
        own(name)
    } else {
        concat3(name, ".", ext)
    }
}

/// The directory artifacts go to: the target directory, or `./target/<profile>`.
pub open spec fn artifact_dir_spec(profile: Seq<char>, target_dir: Option<Seq<char>>) -> Seq<char> {
    match target_dir {
        Some(dir) => dir,
        None => join("./target"@, profile),
    }
}

/// Where the artifact of a project of `kind` is written; `None` for kinds
/// that produce no artifact (`none`, `custom`).
pub open spec fn resolve_artifact_path_spec(
    host: Host,
    kind: Seq<char>,
    profile: Seq<char>,
    project_name: Seq<char>,
    target_dir: Option<Seq<char>>,
    output_filename: Option<Seq<char>>,
    output_extension: Option<Seq<char>>,
) -> Option<Seq<char>> {
    let name = match output_filename {
        Some(n) => n,
        None => project_name,
    };
    if is_flat_bin_spec(kind) {
        let ext = match output_extension {
            Some(e) => e,
            None => "bin"@,
        };
        Some(join(artifact_dir_spec(profile, target_dir), dotted_spec(name, ext)))
    } else if kind == "none"@ || kind == "custom"@ {
        None
    } else {
        let ext = match output_extension {
            Some(e) => e,
            None => Seq::empty(),
        };
        let final_name = dotted_spec(name, ext);
        Some(
            if kind == "staticlib"@ {
                lib_path_spec(host, profile, final_name, target_dir)
            } else if kind == "sharedlib"@ {
                shared_lib_path_spec(host, profile, final_name, target_dir)
            } else if kind == "efi"@ {
                efi_path_spec(host, profile, final_name, target_dir)
            } else if kind == "elf"@ {
                elf_path_spec(host, profile, final_name, target_dir)
            } else {
                bin_path_spec(host, profile, final_name, target_dir)
            },
        )
    }
}

/// The directory artifacts go to.
pub fn artifact_dir(ctx: &BuildContext) -> (r: String)
    ensures
        r@ == artifact_dir_spec(ctx.profile@, opt_view(ctx.target_dir)),
{
    match ctx.target_dir {
        Some(dir) => own(dir),
        None => join_exec("./target", ctx.profile),
    }
}

/// Where the artifact of a project of `kind` is written, if the kind has one.
pub fn resolve_artifact_path(
    host: &Host,
    kind: &str,
    profile: &str,
    project_name: &str,
    target_dir: Option<&str>,
    output_filename: Option<&str>,
    output_extension: Option<&str>,
) -> (r: Option<String>)
    ensures
        match r {
            Some(p) => resolve_artifact_path_spec(*host, kind@, profile@, project_name@, opt_view(target_dir), opt_view(output_filename), opt_view(output_extension)) == Some(p@),
            None => resolve_artifact_path_spec(*host, kind@, profile@, project_name@, opt_view(target_dir), opt_view(output_filename), opt_view(output_extension)) is None,
        },
{
    let name = match output_filename {
        Some(n) => n,
        None => project_name,
    };
    if is_flat_bin(kind) {
        let ext = match output_extension {
            Some(e) => e,
            None => "bin",
        };
        let file = dotted(name, ext);
        let dir = match target_dir {
            Some(d) => own(d),
            None => join_exec("./target", profile),
        };
        return Some(join_exec(dir.as_str(), file.as_str()));
    }
    if str_eq(kind, "none") || str_eq(kind, "custom") {
        return None;
    }
    let ext = match output_extension {
        Some(e) => e,
        None => "",
    };
    proof {
        reveal_strlit("");
    }
    let final_name = dotted(name, ext);
    let path = if str_eq(kind, "staticlib") {
        lib_path(host, profile, final_name.as_str(), target_dir)
    } else if str_eq(kind, "sharedlib") {
        shared_lib_path(host, profile, final_name.as_str(), target_dir)
    } else if str_eq(kind, "efi") {
        efi_path(host, profile, final_name.as_str(), target_dir)
    } else if str_eq(kind, "elf") {
        elf_path(host, profile, final_name.as_str(), target_dir)
    } else {
        bin_path(host, profile, final_name.as_str(), target_dir)
    };
    Some(path)
}

/// An artifact path made absolute against the project root: absolute paths are
/// kept, relative ones lose a leading `./` and are joined onto the root.
pub open spec fn absolute_artifact_path_spec(project_root: Seq<char>, p: Seq<char>) -> Seq<char> {
    if is_absolute(p) {
        p
    } else if has_prefix(p, "./"@) {
        join(project_root, p.subrange(2, p.len() as int))
    } else {
        join(project_root, p)
    }
}

/// The absolute location of an artifact before symbolic links are resolved;
/// the caller canonicalizes the result on the file system.
pub fn absolute_artifact_path(project_root: &str, relative_or_abs: &str) -> (r: String)
    ensures
        r@ == absolute_artifact_path_spec(project_root@, relative_or_abs@),
{
    if is_absolute_exec(relative_or_abs) {
        return own(relative_or_abs);
    }
    let v = crate::text::chars_of(relative_or_abs);
    if crate::text::starts_with(relative_or_abs, "./") {
        proof {
            reveal_strlit("./");
        }
        let rest = crate::paths::sub_chars(&v, 2, v.len());
        let rest_s = crate::text::string_of(&rest);
        join_exec(project_root, rest_s.as_str())
    } else {
        join_exec(project_root, relative_or_abs)
    }
}

/// Where a flat binary image of the whole project is written.
pub open spec fn flat_output_path_spec(ctx: BuildContext) -> Seq<char> {
    let name = match ctx.output_filename {
        Some(n) => n@,
        None => ctx.project_name@,
    };
    let ext = match ctx.output_extension {
        Some(e) => e@,
        None => "bin"@,
    };
    join(artifact_dir_spec(ctx.profile@, opt_view(ctx.target_dir)), dotted_spec(name, ext))
}

/// Where a flat binary image of the whole project is written.
pub fn flat_output_path(ctx: &BuildContext) -> (r: String)
    ensures
        r@ == flat_output_path_spec(*ctx),
{
    let name = match ctx.output_filename {
        Some(n) => n,
        None => ctx.project_name,
    };
    let ext = match ctx.output_extension {
        Some(e) => e,
        None => "bin",
    };
    let file = dotted(name, ext);
    let dir = artifact_dir(ctx);
    join_exec(dir.as_str(), file.as_str())
}

/// Where the flat image of one source file is written: its stem (or `out`)
/// with the output extension (or `bin`).
pub open spec fn flat_source_output_path_spec(ctx: BuildContext, source: Seq<char>) -> Seq<char> {
    let stem = match file_stem(source) {
        Some(s) => s,
        None => "out"@,
    };
    let ext = match ctx.output_extension {
        Some(e) => e@,
        None => "bin"@,
    };
    join(artifact_dir_spec(ctx.profile@, opt_view(ctx.target_dir)), dotted_spec(stem, ext))
}

/// Where the flat image of one source file is written.
pub fn flat_source_output_path(ctx: &BuildContext, source: &str) -> (r: String)
    ensures
        r@ == flat_source_output_path_spec(*ctx, source@),
{
    let stem = match file_stem_exec(source) {
        Some(s) => s,
        None => own("out"),
    };
    let ext = match ctx.output_extension {
        Some(e) => e,
        None => "bin",
    };
    let file = dotted(stem.as_str(), ext);
    let dir = artifact_dir(ctx);
    join_exec(dir.as_str(), file.as_str())
}

/// The archiver used when none is configured: on Windows `lib` for MSVC,
/// `llvm-ar` for Clang and `ar` otherwise; `ar` elsewhere.
pub open spec fn default_archiver_spec(os: HostOs, compiler: Seq<char>) -> Seq<char> {
    let c = lower(compiler);
    if os == HostOs::Windows {
        if contains(c, "cl"@) && !contains(c, "clang"@) {
            "lib"@
        } else if contains(c, "clang"@) {
            "llvm-ar"@
        } else {
            "ar"@
        }
    } else {
        "ar"@
    }
}

/// The archiver used when none is configured.
pub fn default_archiver(os: HostOs, compiler: &str) -> (r: &'static str)
    ensures
        r@ == default_archiver_spec(os, compiler@),
{
    let lc = lower_exec(compiler);
    let c = lc.as_str();
    if os == HostOs::Windows {
        if contains_str(c, "cl") && !contains_str(c, "clang") {
            "lib"
        } else if contains_str(c, "clang") {
            "llvm-ar"
        } else {
            "ar"
        }
    } else {
        "ar"
    }
}

/// The archiver is Microsoft's `lib`.
pub open spec fn is_msvc_lib_spec(archiver: Seq<char>) -> bool {
    let a = lower(archiver);
    a == "lib"@ || a == "lib.exe"@ || has_suffix(a, "\\lib.exe"@) || has_suffix(a, "/lib.exe"@)
}

/// Whether the archiver is Microsoft's `lib`.
pub fn is_msvc_lib(archiver: &str) -> (r: bool)
    ensures
        r == is_msvc_lib_spec(archiver@),
{
    let la = lower_exec(archiver);
    let a = la.as_str();
    str_eq(a, "lib") || str_eq(a, "lib.exe") || crate::text::ends_with(a, "\\lib.exe") || crate::text::ends_with(a, "/lib.exe")
}

/// A program and its arguments.
pub struct ToolCommand {
    pub program: String,
    pub args: Vec<String>,
}

/// Arguments of `lib` (MSVC) or `ar` that create the static library `lib_path`.
pub open spec fn archive_args_spec(msvc_style: bool, lib_path: Seq<char>, objects: Seq<Seq<char>>) -> Seq<Seq<char>> {
    if msvc_style {
        seq!["/nologo"@, "/OUT:"@ + lib_path] + objects
    } else {
        seq!["rcs"@, lib_path] + objects
    }
}

/// The archiver command for a static library, and the library path.
pub open spec fn archive_command_spec(host: Host, ctx: BuildContext, objects: Seq<Seq<char>>) -> (Seq<char>, Seq<Seq<char>>, Seq<char>) {
    let lib = lib_path_spec(host, ctx.profile@, ctx.project_name@, opt_view(ctx.target_dir));
    let archiver = match ctx.archiver {
        Some(a) => a@,
        None => default_archiver_spec(host.os, ctx.compiler@),
    };
    (archiver, archive_args_spec(host.os == HostOs::Windows && is_msvc_lib_spec(archiver), lib, objects), lib)
}

/// Builds the command that archives `objects` into the project's static
/// library, and returns it with the library path.
pub fn archive_command(host: &Host, ctx: &BuildContext, objects: &[String]) -> (r: (ToolCommand, String))
    ensures
        (r.0.program@, views(r.0.args@), r.1@) == archive_command_spec(*host, *ctx, views(objects@)),
{
    let lib = lib_path(host, ctx.profile, ctx.project_name, ctx.target_dir);
    let archiver = match ctx.archiver {
        Some(a) => own(a),
        None => own(default_archiver(host.os, ctx.compiler)),
    };
    let mut args: Vec<String> = Vec::new();
    if host.os == HostOs::Windows && is_msvc_lib(archiver.as_str()) {
        crate::text::push_str_item(&mut args, "/nologo");
        let out = concat2("/OUT:", lib.as_str());
        crate::text::push_str_item(&mut args, out.as_str());
    } else {
        crate::text::push_str_item(&mut args, "rcs");
        crate::text::push_str_item(&mut args, lib.as_str());
    }
    crate::text::extend_strings(&mut args, objects);
    (ToolCommand { program: archiver, args }, lib)
}

/// Final file name of a linked artifact: output file name (or project name)
/// with the output extension, if any.
pub open spec fn final_name_spec(ctx: BuildContext) -> Seq<char> {
    let name = match ctx.output_filename {
        Some(n) => n@,
        None => ctx.project_name@,
    };
    let ext = match ctx.output_extension {
        Some(e) => e@,
        None => Seq::empty(),
    };
    dotted_spec(name, ext)
}

/// Where the linker writes the artifact of `ctx.kind`.
pub open spec fn link_output_spec(host: Host, ctx: BuildContext) -> Seq<char> {
    let n = final_name_spec(ctx);
    let td = opt_view(ctx.target_dir);
    if ctx.kind@ == "sharedlib"@ {
        shared_lib_path_spec(host, ctx.profile@, n, td)
    } else if ctx.kind@ == "efi"@ {
        efi_path_spec(host, ctx.profile@, n, td)
    } else if ctx.kind@ == "elf"@ {
        elf_path_spec(host, ctx.profile@, n, td)
    } else {
        bin_path_spec(host, ctx.profile@, n, td)
    }
}

/// Flags chosen by the artifact kind, before the objects.
pub open spec fn link_kind_flags_spec(host: Host, ctx: BuildContext, bare_metal: bool) -> Seq<Seq<char>> {
    let shared = if ctx.kind@ == "sharedlib"@ {
        if host.os == HostOs::Macos {
            seq!["-dynamiclib"@]
        } else {
            seq!["-shared"@]
        }
    } else {
        Seq::empty()
    };
    let special = if ctx.kind@ == "efi"@ {
        seq!["-shared"@, "-nostdlib"@, "-Wl,-dll"@, "-Wl,--subsystem,10"@]
    } else if ctx.freestanding || bare_metal {
        seq!["-nostdlib"@, "-static"@]
    } else {
        Seq::empty()
    };
    shared + special
}

/// Objects, library directories, libraries and extra linker flags.
pub open spec fn link_inputs_spec(ctx: BuildContext, objects: Seq<Seq<char>>) -> Seq<Seq<char>> {
    objects + crate::text::prefixed("-L"@, views(ctx.lib_dirs@)) + crate::text::prefixed("-l"@, views(ctx.libs@))
        + views(ctx.ldflags@)
}

/// The linker command for a non-flat artifact (`bare_metal` tells whether the
/// target has no operating system), and the output path.
pub open spec fn link_command_spec(host: Host, ctx: BuildContext, objects: Seq<Seq<char>>, default_linker: Seq<char>, bare_metal: bool) -> (Seq<char>, Seq<Seq<char>>, Seq<char>) {
    let out = link_output_spec(host, ctx);
    let program = match ctx.linker {
        Some(l) => l@,
        None => default_linker,
    };
    (program, link_kind_flags_spec(host, ctx, bare_metal) + link_inputs_spec(ctx, objects) + seq!["-o"@, out], out)
}

fn link_inputs(ctx: &BuildContext, objects: &[String], args: &mut Vec<String>)
    ensures
        views(final(args)@) == views(old(args)@) + link_inputs_spec(*ctx, views(objects@)),
{
    crate::text::extend_strings(args, objects);
    let ld = crate::text::prefix_each("-L", ctx.lib_dirs);
    crate::text::extend_strings(args, ld.as_slice());
    let ls = crate::text::prefix_each("-l", ctx.libs);
    crate::text::extend_strings(args, ls.as_slice());
    crate::text::extend_strings(args, ctx.ldflags);
    assert(views(args@) =~= views(old(args)@) + link_inputs_spec(*ctx, views(objects@)));
}

/// Builds the linker command for a non-flat artifact and returns it with the
/// output path.
pub fn link_command(host: &Host, ctx: &BuildContext, objects: &[String], default_linker: &str, bare_metal: bool) -> (r: (ToolCommand, String))
    ensures
        (r.0.program@, views(r.0.args@), r.1@) == link_command_spec(*host, *ctx, views(objects@), default_linker@, bare_metal),
{
    let mut args: Vec<String> = Vec::new();
    let is_shared = str_eq(ctx.kind, "sharedlib");
    let is_efi = str_eq(ctx.kind, "efi");
    if is_shared {
        if host.os == HostOs::Macos {
            crate::text::push_str_item(&mut args, "-dynamiclib");
        } else {
            crate::text::push_str_item(&mut args, "-shared");
        }
    }
    if is_efi {
        crate::text::push_str_item(&mut args, "-shared");
        crate::text::push_str_item(&mut args, "-nostdlib");
        crate::text::push_str_item(&mut args, "-Wl,-dll");
        crate::text::push_str_item(&mut args, "-Wl,--subsystem,10");
    } else if ctx.freestanding || bare_metal {
        crate::text::push_str_item(&mut args, "-nostdlib");
        crate::text::push_str_item(&mut args, "-static");
    }
    assert(views(args@) =~= link_kind_flags_spec(*host, *ctx, bare_metal));
    link_inputs(ctx, objects, &mut args);
    let name = match ctx.output_filename {
        Some(n) => n,
        None => ctx.project_name,
    };
    let ext = match ctx.output_extension {
        Some(e) => e,
        None => "",
    };
    proof {
        reveal_strlit("");
    }
    let final_name = dotted(name, ext);
    let out = if is_shared {
        shared_lib_path(host, ctx.profile, final_name.as_str(), ctx.target_dir)
    } else if is_efi {
        efi_path(host, ctx.profile, final_name.as_str(), ctx.target_dir)
    } else if str_eq(ctx.kind, "elf") {
        elf_path(host, ctx.profile, final_name.as_str(), ctx.target_dir)
    } else {
        bin_path(host, ctx.profile, final_name.as_str(), ctx.target_dir)
    };
    crate::text::push_str_item(&mut args, "-o");
    crate::text::push_str_item(&mut args, out.as_str());
    let program = match ctx.linker {
        Some(l) => own(l),
        None => own(default_linker),
    };
    (ToolCommand { program, args }, out)
}

/// The intermediate ELF file a flat image is linked into.
pub open spec fn flat_intermediate_spec(ctx: BuildContext) -> Seq<char> {
    join(join(artifact_dir_spec(ctx.profile@, opt_view(ctx.target_dir)), "obj"@), ctx.project_name@ + ".flat.elf"@)
}

/// The linker command for the intermediate ELF of a flat image, and that
/// intermediate path.
pub open spec fn flat_link_command_spec(ctx: BuildContext, objects: Seq<Seq<char>>, default_linker: Seq<char>) -> (Seq<char>, Seq<Seq<char>>, Seq<char>) {
    let mid = flat_intermediate_spec(ctx);
    let program = match ctx.linker {
        Some(l) => l@,
        None => default_linker,
    };
    (program, seq!["-nostdlib"@, "-static"@] + link_inputs_spec(ctx, objects) + seq!["-o"@, mid], mid)
}

/// Builds the linker command for the intermediate ELF of a flat image.
pub fn flat_link_command(ctx: &BuildContext, objects: &[String], default_linker: &str) -> (r: (ToolCommand, String))
    ensures
        (r.0.program@, views(r.0.args@), r.1@) == flat_link_command_spec(*ctx, views(objects@), default_linker@),
{
    let dir = artifact_dir(ctx);
    let obj = join_exec(dir.as_str(), "obj");
    let file = concat2(ctx.project_name, ".flat.elf");
    let mid = join_exec(obj.as_str(), file.as_str());
    let mut args: Vec<String> = Vec::new();
    crate::text::push_str_item(&mut args, "-nostdlib");
    crate::text::push_str_item(&mut args, "-static");
    link_inputs(ctx, objects, &mut args);
    crate::text::push_str_item(&mut args, "-o");
    crate::text::push_str_item(&mut args, mid.as_str());
    assert(views(args@) =~= seq!["-nostdlib"@, "-static"@] + link_inputs_spec(*ctx, views(objects@)) + seq!["-o"@, mid@]);
    let program = match ctx.linker {
        Some(l) => own(l),
        None => own(default_linker),
    };
    (ToolCommand { program, args }, mid)
}

/// Arguments that make `objcopy` turn an ELF file into a raw binary.
pub fn objcopy_args(input: &str, output: &str) -> (r: Vec<String>)
    ensures
        views(r@) == seq!["-O"@, "binary"@, input@, output@],
{
    let mut r: Vec<String> = Vec::new();
    crate::text::push_str_item(&mut r, "-O");
    crate::text::push_str_item(&mut r, "binary");
    crate::text::push_str_item(&mut r, input);
    crate::text::push_str_item(&mut r, output);
    assert(views(r@) =~= seq!["-O"@, "binary"@, input@, output@]);
    r
}


/// A path joined onto a directory ends with that path.
proof fn lemma_join_ends_with(base: Seq<char>, p: Seq<char>)
    ensures
        has_suffix(join(base, p), p),
{
    let j = join(base, p);
    assert(j.subrange(j.len() - p.len(), j.len() as int) =~= p);
}

/// A suffix of a suffix is a suffix.
proof fn lemma_suffix_trans(a: Seq<char>, b: Seq<char>, c: Seq<char>)
    requires
        has_suffix(a, b),
        has_suffix(b, c),
    ensures
        has_suffix(a, c),
{
    assert(a.subrange(a.len() - c.len(), a.len() as int) =~= b.subrange(b.len() - c.len(), b.len() as int)) by {
        assert forall|i: int| 0 <= i < c.len() implies #[trigger] a[a.len() - c.len() + i] == b[b.len() - c.len() + i] by {
            assert(a.subrange(a.len() - b.len(), a.len() as int)[b.len() - c.len() + i] == b[b.len() - c.len() + i]);
        }
    }
}

/// Lower-casing keeps a suffix of lower-cased text.
proof fn lemma_lower_suffix(s: Seq<char>, p: Seq<char>)
    requires
        has_suffix(s, p),
    ensures
        has_suffix(lower(s), lower(p)),
{
    assert(lower(s).subrange(lower(s).len() - p.len(), lower(s).len() as int) =~= lower(p));
}

/// A shared library is written as the host's shared-library file: ending in
/// `lib<name>.so` on Linux and other Unix systems, `lib<name>.dylib` on
/// macOS, and `.dll` (in any case) on Windows.
pub proof fn lemma_shared_library_file(host: Host, profile: Seq<char>, name: Seq<char>, target_dir: Option<Seq<char>>)
    ensures
        match resolve_artifact_path_spec(host, "sharedlib"@, profile, name, target_dir, None, None) {
            Some(p) => match host.os {
                HostOs::Macos => has_suffix(p, "lib"@ + name + ".dylib"@),
                HostOs::Windows => has_suffix(lower(p), ".dll"@),
                _ => has_suffix(p, "lib"@ + name + ".so"@),
            },
            None => false,
        },
{
    reveal_strlit("sharedlib");
    reveal_strlit("staticlib");
    reveal_strlit("none");
    reveal_strlit("custom");
    reveal_strlit("flat-bin");
    reveal_strlit("");
    assert("sharedlib"@ != "staticlib"@) by {
        assert("sharedlib"@[1] != "staticlib"@[1]);
    }
    assert("sharedlib"@.len() == 9 && "none"@.len() == 4 && "custom"@.len() == 6 && "flat-bin"@.len() == 8);
    assert("sharedlib"@ != "none"@ && "sharedlib"@ != "custom"@);
    assert(!is_flat_bin_spec("sharedlib"@)) by {
        assert("sharedlib"@ != "flat-bin"@);
    }
    let file = match host.os {
        HostOs::Macos => "lib"@ + name + ".dylib"@,
        HostOs::Windows => crate::platform::windows::ensure_suffix_spec(name, ".dll"@),
        _ => "lib"@ + name + ".so"@,
    };
    match target_dir {
        Some(d) => lemma_join_ends_with(crate::platform::path_util::trim_dir_seps_spec(d), file),
        None => {
            let b = match host.os {
                HostOs::Linux => join("./target"@, host.triple@),
                _ => "./target"@,
            };
            lemma_join_ends_with(join(b, profile), file);
        },
    }
    if host.os == HostOs::Windows {
        let p = resolve_artifact_path_spec(host, "sharedlib"@, profile, name, target_dir, None, None)->Some_0;
        lemma_lower_suffix(p, file);
        reveal_strlit(".dll");
        let dll = ".dll"@;
        assert(lower(dll) =~= dll) by {
            assert forall|i: int| 0 <= i < dll.len() implies lower(dll)[i] == dll[i] by {}
        }
        if !has_suffix(lower(name), dll) {
            assert(lower(file) =~= lower(name) + lower(dll));
            let lf = lower(file);
            assert(lf.subrange(lf.len() - 4, lf.len() as int) =~= dll);
        }
        lemma_suffix_trans(lower(p), lower(file), dll);
    }
}

} // verus!
