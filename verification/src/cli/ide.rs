//! The files `dcr gen` writes for editors and IDEs: the project description,
//! the compilation database, build metadata, and VS Code / CLion settings.
use vstd::prelude::*;

use crate::cli::gen::{xml_escape, xml_escape_spec, json_str, json_str_array, json_str_array_spec, json_str_spec, strip_src_prefix, strip_src_prefix_spec};
use crate::paths::{extension, extension_exec, join, join_exec, with_extension, with_extension_exec};
use crate::text::{concat2, concat3, has_prefix, lower, lower_exec, push_str_item, starts_with, str_eq, views};

verus! {

/// What `dcr gen` knows of one project (or workspace member).
#[derive(Debug)]
pub struct ProjectInfo {
    pub name: String,
    pub version: String,
    pub root: String,
    pub profile: String,
    pub language: String,
    pub standard: String,
    pub cxx_standard: String,
    pub compiler: String,
    pub kind: String,
    pub target: String,
    pub target_dir: Option<String>,
    pub artifact_path: Option<String>,
    pub artifact_kind: String,
    pub sources: Vec<String>,
    pub include_dirs: Vec<String>,
    pub lib_dirs: Vec<String>,
    pub libs: Vec<String>,
    pub cflags: Vec<String>,
    pub ldflags: Vec<String>,
    pub source_roots: Vec<String>,
    pub include_globs: Vec<String>,
    pub exclude_globs: Vec<String>,
    pub output_filename: Option<String>,
    pub output_extension: Option<String>,
    pub out_dir: String,
    pub debugger: String,
    pub moc: Option<String>,
    pub uic: Option<String>,
    pub rcc: Option<String>,
    pub workspace_root: Option<String>,
}

/// A JSON string for `Some`, `null` for `None`.
pub open spec fn opt_json(o: Option<String>) -> Seq<char> {
    match o {
        Some(p) => json_str_spec(p@),
        None => "null"@,
    }
}

fn opt_json_exec(o: &Option<String>) -> (r: String)
    ensures
        r@ == opt_json(*o),
{
    match o {
        Some(p) => json_str(p.as_str()),
        None => String::from_str("null"),
    }
}

/// `    "name": value` followed by `,` unless it is the last field, and a newline.
pub open spec fn field_line(name: Seq<char>, value: Seq<char>, last: bool) -> Seq<char> {
    "    \""@ + name + "\": "@ + value + if last {
        "\n"@
    } else {
        ",\n"@
    }
}

fn push_field(out: &mut String, name: &str, value: &str, last: bool)
    ensures
        final(out)@ == old(out)@ + field_line(name@, value@, last),
{
    out.append("    \"");
    out.append(name);
    out.append("\": ");
    out.append(value);
    if last {
        out.append("\n");
    } else {
        out.append(",\n");
    }
}

/// The JSON object describing one project, indented for an array.
pub open spec fn project_info_json_spec(info: ProjectInfo) -> Seq<char> {
    "  {\n"@ + field_line("name"@, json_str_spec(info.name@), false) + field_line(
        "version"@,
        json_str_spec(info.version@),
        false,
    ) + field_line("root"@, json_str_spec(info.root@), false) + field_line("profile"@, json_str_spec(info.profile@), false)
        + field_line("language"@, json_str_spec(info.language@), false) + field_line(
        "standard"@,
        json_str_spec(info.standard@),
        false,
    ) + field_line("cxx_standard"@, json_str_spec(info.cxx_standard@), false) + field_line(
        "compiler"@,
        json_str_spec(info.compiler@),
        false,
    ) + field_line("kind"@, json_str_spec(info.kind@), false) + field_line("target"@, json_str_spec(info.target@), false)
        + field_line("target_dir"@, opt_json(info.target_dir), false) + field_line(
        "artifact_path"@,
        opt_json(info.artifact_path),
        false,
    ) + field_line("artifact_kind"@, json_str_spec(info.artifact_kind@), false) + field_line(
        "sources"@,
        json_str_array_spec(views(info.sources@)),
        false,
    ) + field_line("include_dirs"@, json_str_array_spec(views(info.include_dirs@)), false) + field_line(
        "lib_dirs"@,
        json_str_array_spec(views(info.lib_dirs@)),
        false,
    ) + field_line("libs"@, json_str_array_spec(views(info.libs@)), false) + field_line(
        "cflags"@,
        json_str_array_spec(views(info.cflags@)),
        false,
    ) + field_line("ldflags"@, json_str_array_spec(views(info.ldflags@)), false) + field_line(
        "source_roots"@,
        json_str_array_spec(views(info.source_roots@)),
        false,
    ) + field_line("include_globs"@, json_str_array_spec(views(info.include_globs@)), false) + field_line(
        "exclude_globs"@,
        json_str_array_spec(views(info.exclude_globs@)),
        true,
    ) + "  }"@
}

/// Writes one project as a JSON object.
pub fn project_info_to_json(info: &ProjectInfo) -> (r: String)
    ensures
        r@ == project_info_json_spec(*info),
{
    let mut out = String::from_str("  {\n");
    push_field(&mut out, "name", json_str(info.name.as_str()).as_str(), false);
    push_field(&mut out, "version", json_str(info.version.as_str()).as_str(), false);
    push_field(&mut out, "root", json_str(info.root.as_str()).as_str(), false);
    push_field(&mut out, "profile", json_str(info.profile.as_str()).as_str(), false);
    push_field(&mut out, "language", json_str(info.language.as_str()).as_str(), false);
    push_field(&mut out, "standard", json_str(info.standard.as_str()).as_str(), false);
    push_field(&mut out, "cxx_standard", json_str(info.cxx_standard.as_str()).as_str(), false);
    push_field(&mut out, "compiler", json_str(info.compiler.as_str()).as_str(), false);
    push_field(&mut out, "kind", json_str(info.kind.as_str()).as_str(), false);
    push_field(&mut out, "target", json_str(info.target.as_str()).as_str(), false);
    push_field(&mut out, "target_dir", opt_json_exec(&info.target_dir).as_str(), false);
    push_field(&mut out, "artifact_path", opt_json_exec(&info.artifact_path).as_str(), false);
    push_field(&mut out, "artifact_kind", json_str(info.artifact_kind.as_str()).as_str(), false);
    push_field(&mut out, "sources", json_str_array(info.sources.as_slice()).as_str(), false);
    push_field(&mut out, "include_dirs", json_str_array(info.include_dirs.as_slice()).as_str(), false);
    push_field(&mut out, "lib_dirs", json_str_array(info.lib_dirs.as_slice()).as_str(), false);
    push_field(&mut out, "libs", json_str_array(info.libs.as_slice()).as_str(), false);
    push_field(&mut out, "cflags", json_str_array(info.cflags.as_slice()).as_str(), false);
    push_field(&mut out, "ldflags", json_str_array(info.ldflags.as_slice()).as_str(), false);
    push_field(&mut out, "source_roots", json_str_array(info.source_roots.as_slice()).as_str(), false);
    push_field(&mut out, "include_globs", json_str_array(info.include_globs.as_slice()).as_str(), false);
    push_field(&mut out, "exclude_globs", json_str_array(info.exclude_globs.as_slice()).as_str(), true);
    out.append("  }");
    out
}

// ---------------------------------------------------------------------------
// Compilation database
// ---------------------------------------------------------------------------

/// The flags a profile adds by default.
pub open spec fn profile_default_flags(profile: Seq<char>) -> Seq<Seq<char>> {
    if profile == "release"@ {
        seq!["-O3"@, "-DNDEBUG"@]
    } else if profile == "debug"@ {
        seq!["-O0"@, "-g"@, "-Wall"@, "-Wextra"@, "-fno-omit-frame-pointer"@, "-DDCR_DEBUG"@]
    } else {
        Seq::empty()
    }
}

/// A C++ source extension.
pub open spec fn is_cpp_ext(e: Seq<char>) -> bool {
    e == "cpp"@ || e == "cxx"@ || e == "cc"@
}

/// The `-std=` flag for a source, if any: C++ sources take the C++ standard
/// (when set), other sources the language standard; none for assembly.
pub open spec fn std_flags(info: ProjectInfo, source: Seq<char>) -> Seq<Seq<char>> {
    if info.standard@.len() > 0 && lower(info.language@) != "asm"@ {
        let ext = match extension(source) {
            Some(e) => e,
            None => Seq::empty(),
        };
        if is_cpp_ext(ext) && info.cxx_standard@.len() > 0 {
            seq!["-std="@ + info.cxx_standard@]
        } else if !is_cpp_ext(ext) {
            seq!["-std="@ + info.standard@]
        } else {
            Seq::empty()
        }
    } else {
        Seq::empty()
    }
}

/// A flag with a relative `-I` path made absolute against the project root.
pub open spec fn absolutize_include_flag(root: Seq<char>, f: Seq<char>) -> Seq<char> {
    if has_prefix(f, "-I"@) {
        "-I"@ + join(root, f.skip(2))
    } else {
        f
    }
}

/// The object path reported for a source.
pub open spec fn compile_object_path(info: ProjectInfo, source: Seq<char>, profile: Seq<char>) -> Seq<char> {
    let base = match info.target_dir {
        Some(d) => d@,
        None => join(join(info.root@, "target"@), profile),
    };
    join(info.root@, with_extension(join(join(base, "obj"@), strip_src_prefix_spec(source)), "o"@))
}

/// The compiler command line for one source: compiler, `-c`, the language
/// flag, the source and object paths (absolute), `-fPIC` for shared
/// libraries, the standard, the profile's default flags, the configured
/// flags and the include directories (relative ones made absolute).
pub open spec fn compile_command_spec(info: ProjectInfo, source: Seq<char>, profile: Seq<char>, asm_flag: Option<Seq<char>>) -> Seq<
    Seq<char>,
> {
    let compiler = if info.compiler@.len() == 0 {
        "cc"@
    } else {
        info.compiler@
    };
    seq![compiler, "-c"@] + (match asm_flag {
        Some(f) => seq!["-x"@, f],
        None => Seq::empty(),
    }) + seq![join(info.root@, source), "-o"@, compile_object_path(info, source, profile)] + (if info.kind@
        == "sharedlib"@ {
        seq!["-fPIC"@]
    } else {
        Seq::empty()
    }) + std_flags(info, source) + profile_default_flags(profile) + views(info.cflags@).map_values(
        |f: Seq<char>| absolutize_include_flag(info.root@, f),
    ) + views(info.include_dirs@).map_values(|d: Seq<char>| "-I"@ + join(info.root@, d))
}

fn push_profile_flags(cmd: &mut Vec<String>, profile: &str)
    ensures
        views(final(cmd)@) == views(old(cmd)@) + profile_default_flags(profile@),
{
    let ghost c0 = views(cmd@);
    if str_eq(profile, "release") {
        push_str_item(cmd, "-O3");
        push_str_item(cmd, "-DNDEBUG");
        assert(views(cmd@) =~= c0 + profile_default_flags(profile@));
    } else if str_eq(profile, "debug") {
        push_str_item(cmd, "-O0");
        push_str_item(cmd, "-g");
        push_str_item(cmd, "-Wall");
        push_str_item(cmd, "-Wextra");
        push_str_item(cmd, "-fno-omit-frame-pointer");
        push_str_item(cmd, "-DDCR_DEBUG");
        assert(views(cmd@) =~= c0 + profile_default_flags(profile@));
    } else {
        assert(views(cmd@) =~= c0 + profile_default_flags(profile@));
    }
}

fn push_std_flags(cmd: &mut Vec<String>, info: &ProjectInfo, source: &str)
    ensures
        views(final(cmd)@) == views(old(cmd)@) + std_flags(*info, source@),
{
    let ghost c0 = views(cmd@);
    let lang = lower_exec(info.language.as_str());
    if !info.standard.as_str().is_empty() && !str_eq(lang.as_str(), "asm") {
        let ext = match extension_exec(source) {
            Some(e) => e,
            None => String::new(),
        };
        let e = ext.as_str();
        let is_cpp = str_eq(e, "cpp") || str_eq(e, "cxx") || str_eq(e, "cc");
        if is_cpp && !info.cxx_standard.as_str().is_empty() {
            let f = concat2("-std=", info.cxx_standard.as_str());
            push_str_item(cmd, f.as_str());
        } else if !is_cpp {
            let f = concat2("-std=", info.standard.as_str());
            push_str_item(cmd, f.as_str());
        }
    }
    assert(views(cmd@) =~= c0 + std_flags(*info, source@));
}

fn push_flag_lists(cmd: &mut Vec<String>, info: &ProjectInfo)
    ensures
        views(final(cmd)@) == views(old(cmd)@) + views(info.cflags@).map_values(
            |f: Seq<char>| absolutize_include_flag(info.root@, f),
        ) + views(info.include_dirs@).map_values(|d: Seq<char>| "-I"@ + join(info.root@, d)),
{
    proof {
        reveal_strlit("-I");
    }
    let ghost c0 = views(cmd@);
    let ghost fl = views(info.cflags@).map_values(|f: Seq<char>| absolutize_include_flag(info.root@, f));
    let mut i: usize = 0;
    while i < info.cflags.len()
        invariant
            i <= info.cflags@.len(),
            fl == views(info.cflags@).map_values(|f: Seq<char>| absolutize_include_flag(info.root@, f)),
            views(cmd@) == c0 + fl.take(i as int),
        decreases info.cflags.len() - i,
    {
        let f = info.cflags[i].as_str();
        if starts_with(f, "-I") {
            proof {
                reveal_strlit("-I");
            }
            let v = crate::text::chars_of(f);
            let rest = crate::paths::sub_chars(&v, 2, v.len());
            let rest_s = crate::text::string_of(&rest);
            assert(rest_s@ =~= f@.skip(2));
            let abs = join_exec(info.root.as_str(), rest_s.as_str());
            let g = concat2("-I", abs.as_str());
            push_str_item(cmd, g.as_str());
        } else {
            push_str_item(cmd, f);
        }
        assert(fl.take(i + 1) =~= fl.take(i as int).push(fl[i as int]));
        i = i + 1;
    }
    assert(fl.take(info.cflags@.len() as int) =~= fl);
    let ghost c1 = views(cmd@);
    let ghost dl = views(info.include_dirs@).map_values(|d: Seq<char>| "-I"@ + join(info.root@, d));
    let mut j: usize = 0;
    while j < info.include_dirs.len()
        invariant
            j <= info.include_dirs@.len(),
            dl == views(info.include_dirs@).map_values(|d: Seq<char>| "-I"@ + join(info.root@, d)),
            views(cmd@) == c1 + dl.take(j as int),
        decreases info.include_dirs.len() - j,
    {
        let abs = join_exec(info.root.as_str(), info.include_dirs[j].as_str());
        let g = concat2("-I", abs.as_str());
        push_str_item(cmd, g.as_str());
        assert(dl.take(j + 1) =~= dl.take(j as int).push(dl[j as int]));
        j = j + 1;
    }
    assert(dl.take(info.include_dirs@.len() as int) =~= dl);
}

/// The compiler command line for one source (`asm_flag` is the `-x` language
/// the source needs, if any).
pub fn build_compile_command(info: &ProjectInfo, source: &str, profile: &str, asm_flag: Option<&str>) -> (r: Vec<String>)
    ensures
        views(r@) == compile_command_spec(*info, source@, profile@, crate::platform::opt_view(asm_flag)),
{
    let mut cmd: Vec<String> = Vec::new();
    let compiler = if info.compiler.as_str().is_empty() {
        "cc"
    } else {
        info.compiler.as_str()
    };
    push_str_item(&mut cmd, compiler);
    push_str_item(&mut cmd, "-c");
    if let Some(flag) = asm_flag {
        push_str_item(&mut cmd, "-x");
        push_str_item(&mut cmd, flag);
    }
    let abs_source = join_exec(info.root.as_str(), source);
    push_str_item(&mut cmd, abs_source.as_str());
    let base = match &info.target_dir {
        Some(d) => d.clone(),
        None => {
            let t = join_exec(info.root.as_str(), "target");
            join_exec(t.as_str(), profile)
        },
    };
    let obj_dir = join_exec(base.as_str(), "obj");
    let rel = strip_src_prefix(source);
    let joined = join_exec(obj_dir.as_str(), rel.as_str());
    let with_o = with_extension_exec(joined.as_str(), "o");
    let obj_path = join_exec(info.root.as_str(), with_o.as_str());
    push_str_item(&mut cmd, "-o");
    push_str_item(&mut cmd, obj_path.as_str());
    if str_eq(info.kind.as_str(), "sharedlib") {
        push_str_item(&mut cmd, "-fPIC");
    }
    push_std_flags(&mut cmd, info, source);
    push_profile_flags(&mut cmd, profile);
    push_flag_lists(&mut cmd, info);
    proof {
        reveal_strlit("cc");
        let c = compile_command_spec(*info, source@, profile@, crate::platform::opt_view(asm_flag));
        assert(views(cmd@) =~= c);
    }
    cmd
}

/// One entry of the compilation database.
pub open spec fn compile_entry(info: ProjectInfo, source: Seq<char>, command: Seq<Seq<char>>) -> Seq<char> {
    "  {\n"@ + "    \"directory\": "@ + json_str_spec(info.root@) + ",\n"@ + "    \"file\": "@ + json_str_spec(source)
        + ",\n"@ + "    \"arguments\": "@ + json_str_array_spec(command) + "\n"@ + "  }"@
}

/// Writes one entry of the compilation database.
pub fn compile_entry_exec(info: &ProjectInfo, source: &str, command: &Vec<String>) -> (r: String)
    ensures
        r@ == compile_entry(*info, source@, views(command@)),
{
    let mut out = String::from_str("  {\n");
    out.append("    \"directory\": ");
    out.append(json_str(info.root.as_str()).as_str());
    out.append(",\n");
    out.append("    \"file\": ");
    out.append(json_str(source).as_str());
    out.append(",\n");
    out.append("    \"arguments\": ");
    out.append(json_str_array(command.as_slice()).as_str());
    out.append("\n");
    out.append("  }");
    out
}

// ---------------------------------------------------------------------------
// Build metadata (`.dcr/build-info.json`, `.dcr/toolchain.json`)
// ---------------------------------------------------------------------------

/// `.dcr/build-info.json`, stamped with `generated_at`.
pub open spec fn build_info_json_spec(info: ProjectInfo, generated_at: Seq<char>) -> Seq<char> {
    "{\n  \"schemaVersion\": 1,\n  \"generatedAt\": "@ + json_str_spec(generated_at) + ",\n  \"profile\": "@
        + json_str_spec(info.profile@) + ",\n  \"compiler\": "@ + json_str_spec(info.compiler@) + ",\n  \"target\": "@
        + json_str_spec(info.target@) + ",\n  \"target_dir\": "@ + opt_json(info.target_dir) + ",\n  \"artifact_path\": "@
        + opt_json(info.artifact_path) + ",\n  \"artifact_kind\": "@ + json_str_spec(info.artifact_kind@) + "\n}\n"@
}

/// The text of `.dcr/build-info.json`.
pub fn build_info_json(info: &ProjectInfo, generated_at: &str) -> (r: String)
    ensures
        r@ == build_info_json_spec(*info, generated_at@),
{
    let mut out = String::from_str("{\n  \"schemaVersion\": 1,\n  \"generatedAt\": ");
    out.append(json_str(generated_at).as_str());
    out.append(",\n  \"profile\": ");
    out.append(json_str(info.profile.as_str()).as_str());
    out.append(",\n  \"compiler\": ");
    out.append(json_str(info.compiler.as_str()).as_str());
    out.append(",\n  \"target\": ");
    out.append(json_str(info.target.as_str()).as_str());
    out.append(",\n  \"target_dir\": ");
    out.append(opt_json_exec(&info.target_dir).as_str());
    out.append(",\n  \"artifact_path\": ");
    out.append(opt_json_exec(&info.artifact_path).as_str());
    out.append(",\n  \"artifact_kind\": ");
    out.append(json_str(info.artifact_kind.as_str()).as_str());
    out.append("\n}\n");
    out
}

/// `,\n  "key": "value"` for a tool that is set.
pub open spec fn opt_tool_line(key: Seq<char>, v: Option<String>) -> Seq<char> {
    match v {
        Some(x) => ",\n  \""@ + key + "\": "@ + json_str_spec(x@),
        None => Seq::empty(),
    }
}

/// `.dcr/toolchain.json`, with the resolved compiler and debugger paths.
pub open spec fn toolchain_json_spec(info: ProjectInfo, compiler_path: Seq<char>, debugger_path: Seq<char>) -> Seq<char> {
    "{\n"@ + "  \"schemaVersion\": 1,\n"@ + "  \"compiler\": "@ + json_str_spec(info.compiler@) + ",\n"@
        + "  \"compilerPath\": "@ + json_str_spec(compiler_path) + ",\n"@ + "  \"debugger\": "@ + json_str_spec(
        info.debugger@,
    ) + ",\n"@ + "  \"debuggerPath\": "@ + json_str_spec(debugger_path) + opt_tool_line("moc"@, info.moc)
        + opt_tool_line("uic"@, info.uic) + opt_tool_line("rcc"@, info.rcc) + "\n}\n"@
}

fn push_opt_tool(out: &mut String, key: &str, v: &Option<String>)
    ensures
        final(out)@ == old(out)@ + opt_tool_line(key@, *v),
{
    if let Some(x) = v {
        out.append(",\n  \"");
        out.append(key);
        out.append("\": ");
        out.append(json_str(x.as_str()).as_str());
    }
}

/// The text of `.dcr/toolchain.json`.
pub fn toolchain_json(info: &ProjectInfo, compiler_path: &str, debugger_path: &str) -> (r: String)
    ensures
        r@ == toolchain_json_spec(*info, compiler_path@, debugger_path@),
{
    let mut out = String::from_str("{\n");
    out.append("  \"schemaVersion\": 1,\n");
    out.append("  \"compiler\": ");
    out.append(json_str(info.compiler.as_str()).as_str());
    out.append(",\n");
    out.append("  \"compilerPath\": ");
    out.append(json_str(compiler_path).as_str());
    out.append(",\n");
    out.append("  \"debugger\": ");
    out.append(json_str(info.debugger.as_str()).as_str());
    out.append(",\n");
    out.append("  \"debuggerPath\": ");
    out.append(json_str(debugger_path).as_str());
    push_opt_tool(&mut out, "moc", &info.moc);
    push_opt_tool(&mut out, "uic", &info.uic);
    push_opt_tool(&mut out, "rcc", &info.rcc);
    out.append("\n}\n");
    out
}

// ---------------------------------------------------------------------------
// Arguments of `dcr gen`
// ---------------------------------------------------------------------------

/// The profile (`--debug`/`--release`, the last one wins, `debug` by
/// default) and quiet mode (`--quiet`/`-q`) of the arguments; others are ignored.
pub open spec fn gen_flags_spec(args: Seq<Seq<char>>) -> (Seq<char>, bool)
    decreases args.len(),
{
    if args.len() == 0 {
        ("debug"@, false)
    } else {
        let (p, q) = gen_flags_spec(args.drop_last());
        let a = args.last();
        if a == "--debug"@ {
            ("debug"@, q)
        } else if a == "--release"@ {
            ("release"@, q)
        } else if a == "--quiet"@ || a == "-q"@ {
            (p, true)
        } else {
            (p, q)
        }
    }
}

/// Reads the profile and quiet mode of `dcr gen` arguments.
pub fn parse_gen_flags(args: &[String]) -> (r: (String, bool))
    ensures
        (r.0@, r.1) == gen_flags_spec(views(args@)),
{
    let mut profile = String::from_str("debug");
    let mut quiet = false;
    let mut i: usize = 0;
    while i < args.len()
        invariant
            i <= args@.len(),
            (profile@, quiet) == gen_flags_spec(views(args@).take(i as int)),
        decreases args.len() - i,
    {
        assert(views(args@).take(i + 1).drop_last() =~= views(args@).take(i as int));
        let a = args[i].as_str();
        if str_eq(a, "--debug") {
            profile = String::from_str("debug");
        } else if str_eq(a, "--release") {
            profile = String::from_str("release");
        } else if str_eq(a, "--quiet") || str_eq(a, "-q") {
            quiet = true;
        }
        i = i + 1;
    }
    assert(views(args@).take(args@.len() as int) =~= views(args@));
    (profile, quiet)
}


/// The compilation database: the entries as a JSON array, one per line group.
pub open spec fn compile_commands_spec(entries: Seq<Seq<char>>) -> Seq<char> {
    "[\n"@ + crate::text::join(entries, ",\n"@) + "\n]\n"@
}

/// Writes the compilation database from its entries.
pub fn compile_commands_json(entries: &Vec<String>) -> (r: String)
    ensures
        r@ == compile_commands_spec(views(entries@)),
{
    let body = crate::text::join_exec(entries, ",\n");
    let mut out = String::from_str("[\n");
    out.append(body.as_str());
    out.append("\n]\n");
    out
}

// ---------------------------------------------------------------------------
// VS Code
// ---------------------------------------------------------------------------

/// `.vscode/extensions.json`.
pub const EXTENSIONS_JSON: &'static str = "{\n  \"recommendations\": [\n    \"llvm-vs-code-extensions.vscode-clangd\",\n    \"vadimcn.vscode-lldb\"\n  ],\n  \"unwantedRecommendations\": [\n    \"ms-vscode.cpptools\",\n    \"ms-vscode.cpptools-extension-pack\",\n    \"ms-vscode.cpptools-themes\"\n  ]\n}\n";

/// `.vscode/tasks.json`.
pub const TASKS_JSON: &'static str = "{\n  \"version\": \"2.0.0\",\n  \"tasks\": [\n    {\n      \"label\": \"dcr: build (debug)\",\n      \"type\": \"shell\",\n      \"command\": \"dcr build --debug\",\n      \"group\": {\n        \"kind\": \"build\",\n        \"isDefault\": true\n      },\n      \"problemMatcher\": [\"$gcc\"],\n      \"presentation\": { \"reveal\": \"always\", \"panel\": \"shared\" }\n    },\n    {\n      \"label\": \"dcr: build (release)\",\n      \"type\": \"shell\",\n      \"command\": \"dcr build --release\",\n      \"group\": \"build\",\n      \"problemMatcher\": [\"$gcc\"],\n      \"presentation\": { \"reveal\": \"always\", \"panel\": \"shared\" }\n    },\n    {\n      \"label\": \"dcr: run (debug)\",\n      \"type\": \"shell\",\n      \"command\": \"dcr run --debug\",\n      \"group\": {\n        \"kind\": \"test\",\n        \"isDefault\": true\n      },\n      \"problemMatcher\": [\"$gcc\"],\n      \"presentation\": { \"reveal\": \"always\", \"panel\": \"shared\" }\n    },\n    {\n      \"label\": \"dcr: run (release)\",\n      \"type\": \"shell\",\n      \"command\": \"dcr run --release\",\n      \"group\": \"test\",\n      \"problemMatcher\": [\"$gcc\"],\n      \"presentation\": { \"reveal\": \"always\", \"panel\": \"shared\" }\n    },\n    {\n      \"label\": \"dcr: clean\",\n      \"type\": \"shell\",\n      \"command\": \"dcr clean --all\",\n      \"group\": \"none\",\n      \"problemMatcher\": [],\n      \"presentation\": { \"reveal\": \"always\", \"panel\": \"shared\" }\n    },\n    {\n      \"label\": \"dcr: gen compile-commands\",\n      \"type\": \"shell\",\n      \"command\": \"dcr gen compile-commands\",\n      \"group\": \"none\",\n      \"problemMatcher\": [],\n      \"presentation\": { \"reveal\": \"always\", \"panel\": \"shared\" }\n    }\n  ]\n}\n";

/// The text of `.vscode/extensions.json`.
pub fn gen_extensions_json() -> (r: String)
    ensures
        r@ == EXTENSIONS_JSON@,
{
    String::from_str(EXTENSIONS_JSON)
}

/// The text of `.vscode/tasks.json`.
pub fn gen_tasks_json() -> (r: String)
    ensures
        r@ == TASKS_JSON@,
{
    String::from_str(TASKS_JSON)
}

/// `.vscode/settings.json`: clangd reads the database under `<root>/.dcr`.
pub open spec fn settings_json_spec(root: Seq<char>) -> Seq<char> {
    "{\n  \"clangd.arguments\": [\n    \"--compile-commands-dir="@ + join(root, ".dcr"@)
        + "\",\n    \"--header-insertion=never\",\n    \"--clang-tidy=false\"\n  ],\n  \"C_Cpp.intelliSenseEngine\": \"disabled\",\n  \"C_Cpp.autocomplete\": \"disabled\",\n  \"C_Cpp.errorSquiggles\": \"disabled\",\n  \"C_Cpp.hover\": \"disabled\"\n}\n"@
}

/// The text of `.vscode/settings.json`.
pub fn gen_settings_json(root: &str) -> (r: String)
    ensures
        r@ == settings_json_spec(root@),
{
    let cc_dir = join_exec(root, ".dcr");
    let mut out = String::from_str("{\n  \"clangd.arguments\": [\n    \"--compile-commands-dir=");
    out.append(cc_dir.as_str());
    out.append("\",\n    \"--header-insertion=never\",\n    \"--clang-tidy=false\"\n  ],\n  \"C_Cpp.intelliSenseEngine\": \"disabled\",\n  \"C_Cpp.autocomplete\": \"disabled\",\n  \"C_Cpp.errorSquiggles\": \"disabled\",\n  \"C_Cpp.hover\": \"disabled\"\n}\n");
    out
}

/// One launch configuration of `.vscode/launch.json`.
pub open spec fn launch_entry_spec(name: Seq<char>, profile: Seq<char>, dtype: Seq<char>, program: Seq<char>, cwd: Seq<char>) -> Seq<char> {
    "    {\n      \"name\": "@ + json_str_spec(name + " ("@ + profile + ")"@) + ",\n      \"type\": "@ + json_str_spec(dtype)
        + ",\n      \"request\": \"launch\",\n      \"program\": "@ + json_str_spec(program)
        + ",\n      \"args\": [],\n      \"stopOnEntry\": false,\n      \"cwd\": "@ + json_str_spec(cwd)
        + ",\n      \"terminal\": \"integrated\",\n      \"preLaunchTask\": \"dcr: build ("@ + profile + ")\"\n    }"@
}

/// Writes one launch configuration for a binary built with `profile`.
pub fn launch_entry(name: &str, profile: &str, dtype: &str, program: &str, cwd: &str) -> (r: String)
    ensures
        r@ == launch_entry_spec(name@, profile@, dtype@, program@, cwd@),
{
    let label = concat3(name, " (", profile);
    let label2 = concat2(label.as_str(), ")");
    let mut out = String::from_str("    {\n      \"name\": ");
    out.append(json_str(label2.as_str()).as_str());
    out.append(",\n      \"type\": ");
    out.append(json_str(dtype).as_str());
    out.append(",\n      \"request\": \"launch\",\n      \"program\": ");
    out.append(json_str(program).as_str());
    out.append(",\n      \"args\": [],\n      \"stopOnEntry\": false,\n      \"cwd\": ");
    out.append(json_str(cwd).as_str());
    out.append(",\n      \"terminal\": \"integrated\",\n      \"preLaunchTask\": \"dcr: build (");
    out.append(profile);
    out.append(")\"\n    }");
    out
}

/// The configuration written when no project builds a binary.
pub const LAUNCH_PLACEHOLDER: &'static str = "    {\n      \"name\": \"(placeholder \u{2014} no binary targets found)\",\n      \"type\": \"lldb\",\n      \"request\": \"launch\",\n      \"program\": \"\",\n      \"cwd\": \"${workspaceFolder}\"\n    }";

/// `.vscode/launch.json` from its configurations (a placeholder when there are none).
pub open spec fn launch_json_spec(entries: Seq<Seq<char>>) -> Seq<char> {
    let cs = if entries.len() == 0 {
        seq![LAUNCH_PLACEHOLDER@]
    } else {
        entries
    };
    "{\n  \"version\": \"0.2.0\",\n  \"configurations\": [\n"@ + crate::text::join(cs, ",\n"@) + "\n  ]\n}\n"@
}

/// Writes `.vscode/launch.json`.
pub fn gen_launch_json(entries: &Vec<String>) -> (r: String)
    ensures
        r@ == launch_json_spec(views(entries@)),
{
    let body = if entries.len() == 0 {
        let v = vec![String::from_str(LAUNCH_PLACEHOLDER)];
        assert(views(v@) =~= seq![LAUNCH_PLACEHOLDER@]);
        crate::text::join_exec(&v, ",\n")
    } else {
        crate::text::join_exec(entries, ",\n")
    };
    let mut out = String::from_str("{\n  \"version\": \"0.2.0\",\n  \"configurations\": [\n");
    out.append(body.as_str());
    out.append("\n  ]\n}\n");
    out
}

// ---------------------------------------------------------------------------
// CLion
// ---------------------------------------------------------------------------

/// `.idea/tools/DCR.xml`.
pub const CLION_EXTERNAL_TOOLS: &'static str = "<?xml version=\"1.0\" encoding=\"UTF-8\"?>\n<project version=\"4\">\n  <component name=\"ExternalToolsComponent\">\n    <tools name=\"DCR\">\n      <tool name=\"Build Debug\"\n            description=\"dcr build --debug\"\n            showInMainMenu=\"true\"\n            showInEditor=\"false\"\n            showInProject=\"false\"\n            showInSearchPopup=\"false\"\n            disabled=\"false\"\n            useConsole=\"true\"\n            showConsoleOnStdOut=\"false\"\n            showConsoleOnStdErr=\"true\"\n            synchronizeAfterRun=\"true\">\n        <exec>\n          <option name=\"COMMAND\" value=\"dcr\" />\n          <option name=\"PARAMETERS\" value=\"build --debug\" />\n          <option name=\"WORKING_DIRECTORY\" value=\"$ProjectFileDir$\" />\n        </exec>\n      </tool>\n      <tool name=\"Build Release\"\n            description=\"dcr build --release\"\n            showInMainMenu=\"true\"\n            showInEditor=\"false\"\n            showInProject=\"false\"\n            showInSearchPopup=\"false\"\n            disabled=\"false\"\n            useConsole=\"true\"\n            showConsoleOnStdOut=\"false\"\n            showConsoleOnStdErr=\"true\"\n            synchronizeAfterRun=\"true\">\n        <exec>\n          <option name=\"COMMAND\" value=\"dcr\" />\n          <option name=\"PARAMETERS\" value=\"build --release\" />\n          <option name=\"WORKING_DIRECTORY\" value=\"$ProjectFileDir$\" />\n        </exec>\n      </tool>\n      <tool name=\"Clean\"\n            description=\"dcr clean\"\n            showInMainMenu=\"true\"\n            showInEditor=\"false\"\n            showInProject=\"false\"\n            showInSearchPopup=\"false\"\n            disabled=\"false\"\n            useConsole=\"true\"\n            showConsoleOnStdOut=\"false\"\n            showConsoleOnStdErr=\"true\"\n            synchronizeAfterRun=\"true\">\n        <exec>\n          <option name=\"COMMAND\" value=\"dcr\" />\n          <option name=\"PARAMETERS\" value=\"clean\" />\n          <option name=\"WORKING_DIRECTORY\" value=\"$ProjectFileDir$\" />\n        </exec>\n      </tool>\n      <tool name=\"Gen Compile Commands\"\n            description=\"dcr gen compile-commands\"\n            showInMainMenu=\"true\"\n            showInEditor=\"false\"\n            showInProject=\"false\"\n            showInSearchPopup=\"false\"\n            disabled=\"false\"\n            useConsole=\"true\"\n            showConsoleOnStdOut=\"false\"\n            showConsoleOnStdErr=\"true\"\n            synchronizeAfterRun=\"true\">\n        <exec>\n          <option name=\"COMMAND\" value=\"dcr\" />\n          <option name=\"PARAMETERS\" value=\"gen compile-commands\" />\n          <option name=\"WORKING_DIRECTORY\" value=\"$ProjectFileDir$\" />\n        </exec>\n      </tool>\n    </tools>\n  </component>\n</project>\n";

/// `.idea/customTargets.xml`.
pub const CLION_CUSTOM_TARGETS: &'static str = "<?xml version=\"1.0\" encoding=\"UTF-8\"?>\n<project version=\"4\">\n  <component name=\"CLionExternalBuildManager\">\n    <target id=\"dcr00000-0000-0000-0000-000000000001\"\n            name=\"dcr: build (debug)\"\n            defaultType=\"TOOL\">\n      <build type=\"TOOL\">\n        <tool actionId=\"Tool_DCR_Build Debug\" />\n      </build>\n      <clean type=\"TOOL\">\n        <tool actionId=\"Tool_DCR_Clean\" />\n      </clean>\n    </target>\n    <target id=\"dcr00000-0000-0000-0000-000000000002\"\n            name=\"dcr: build (release)\"\n            defaultType=\"TOOL\">\n      <build type=\"TOOL\">\n        <tool actionId=\"Tool_DCR_Build Release\" />\n      </build>\n      <clean type=\"TOOL\">\n        <tool actionId=\"Tool_DCR_Clean\" />\n      </clean>\n    </target>\n  </component>\n</project>\n";

/// The text of `.idea/tools/DCR.xml`.
pub fn gen_clion_external_tools() -> (r: String)
    ensures
        r@ == CLION_EXTERNAL_TOOLS@,
{
    String::from_str(CLION_EXTERNAL_TOOLS)
}

/// The text of `.idea/customTargets.xml`.
pub fn gen_clion_custom_targets() -> (r: String)
    ensures
        r@ == CLION_CUSTOM_TARGETS@,
{
    String::from_str(CLION_CUSTOM_TARGETS)
}

/// `.idea/misc.xml`, pointing at `<root>/.dcr/compile_commands.json`.
pub open spec fn clion_misc_xml_spec(root: Seq<char>) -> Seq<char> {
    "<?xml version=\"1.0\" encoding=\"UTF-8\"?>\n<project version=\"4\">\n  <component name=\"CMakeWorkspace\" PROJECT_DIR=\"$PROJECT_DIR$\" />\n  <component name=\"CompDBWorkspace\" projectDir=\"$PROJECT_DIR$\">\n    <customCompileCommandsPath>"@
        + xml_escape_spec(join(join(root, ".dcr"@), "compile_commands.json"@))
        + "</customCompileCommandsPath>\n  </component>\n</project>\n"@
}

/// The text of `.idea/misc.xml`.
pub fn gen_clion_misc_xml(root: &str) -> (r: String)
    ensures
        r@ == clion_misc_xml_spec(root@),
{
    let d = join_exec(root, ".dcr");
    let p = join_exec(d.as_str(), "compile_commands.json");
    let cc = xml_escape(p.as_str());
    let mut out = String::from_str("<?xml version=\"1.0\" encoding=\"UTF-8\"?>\n<project version=\"4\">\n  <component name=\"CMakeWorkspace\" PROJECT_DIR=\"$PROJECT_DIR$\" />\n  <component name=\"CompDBWorkspace\" projectDir=\"$PROJECT_DIR$\">\n    <customCompileCommandsPath>");
    out.append(cc.as_str());
    out.append("</customCompileCommandsPath>\n  </component>\n</project>\n");
    out
}

/// The build target a run configuration depends on.
pub open spec fn run_config_target(profile: Seq<char>) -> Seq<char> {
    if profile == "release"@ {
        "dcr: build (release)"@
    } else {
        "dcr: build (debug)"@
    }
}

/// One CLion run configuration for the binary at `bin_path`.
pub open spec fn clion_run_config_spec(name: Seq<char>, profile: Seq<char>, bin_path: Seq<char>) -> Seq<char> {
    "<?xml version=\"1.0\" encoding=\"UTF-8\"?>\n<component name=\"ProjectRunConfigurationManager\">\n  <configuration default=\"false\"\n                 name=\""@
        + xml_escape_spec(name + " ("@ + profile + ")"@)
        + "\"\n                 type=\"CLionExternalRunConfiguration\"\n                 factoryName=\"Application\">\n    <build target=\""@
        + xml_escape_spec(run_config_target(profile)) + "\" />\n    <executable path=\""@ + xml_escape_spec(bin_path)
        + "\" />\n    <workingDirectory value=\"$PROJECT_DIR$\" />\n    <envs />\n    <method v=\"2\">\n      <option name=\"CLionExternalBuildTargetBeforeRunTask\" enabled=\"true\" />\n    </method>\n  </configuration>\n</component>\n"@
}

/// The text of one CLion run configuration.
pub fn gen_clion_run_config(name: &str, profile: &str, bin_path: &str) -> (r: String)
    ensures
        r@ == clion_run_config_spec(name@, profile@, bin_path@),
{
    let bin = xml_escape(bin_path);
    let target = if str_eq(profile, "release") {
        "dcr: build (release)"
    } else {
        "dcr: build (debug)"
    };
    let target_esc = xml_escape(target);
    let label = concat3(name, " (", profile);
    let label2 = concat2(label.as_str(), ")");
    let name_esc = xml_escape(label2.as_str());
    let mut out = String::from_str("<?xml version=\"1.0\" encoding=\"UTF-8\"?>\n<component name=\"ProjectRunConfigurationManager\">\n  <configuration default=\"false\"\n                 name=\"");
    out.append(name_esc.as_str());
    out.append("\"\n                 type=\"CLionExternalRunConfiguration\"\n                 factoryName=\"Application\">\n    <build target=\"");
    out.append(target_esc.as_str());
    out.append("\" />\n    <executable path=\"");
    out.append(bin.as_str());
    out.append("\" />\n    <workingDirectory value=\"$PROJECT_DIR$\" />\n    <envs />\n    <method v=\"2\">\n      <option name=\"CLionExternalBuildTargetBeforeRunTask\" enabled=\"true\" />\n    </method>\n  </configuration>\n</component>\n");
    out
}

/// Where the program of a launch configuration is: the known artifact when the
/// project was described for this profile; else the artifact path for the
/// profile's target directory, made absolute against the root (to be resolved
/// on disk by the caller); else the project name in the target directory
/// (`.exe` added on Windows).
pub enum LaunchProgram {
    Known(String),
    Artifact(String),
    Fallback(String),
}

/// The launch program of a project for `profile`, given its target directory.
pub fn resolve_launch_program(host: &crate::platform::Host, info: &ProjectInfo, profile: &str, target_dir: &str) -> (r: LaunchProgram)
    ensures
        match r {
            LaunchProgram::Known(p) => info.profile@ == profile@ && info.artifact_path == Some(p),
            LaunchProgram::Artifact(p) => !(info.profile@ == profile@ && info.artifact_path is Some) && exists|rel: Seq<char>|
                crate::build::artifact::resolve_artifact_path_spec(
                    *host,
                    info.kind@,
                    profile@,
                    info.name@,
                    Some(target_dir@),
                    crate::deps::opt_string_view(info.output_filename),
                    crate::deps::opt_string_view(info.output_extension),
                ) == Some(rel) && p@ == crate::build::artifact::absolute_artifact_path_spec(info.root@, rel),
            LaunchProgram::Fallback(p) => !(info.profile@ == profile@ && info.artifact_path is Some)
                && crate::build::artifact::resolve_artifact_path_spec(
                *host,
                info.kind@,
                profile@,
                info.name@,
                Some(target_dir@),
                crate::deps::opt_string_view(info.output_filename),
                crate::deps::opt_string_view(info.output_extension),
            ) is None && p@ == join(
                target_dir@,
                if host.os == crate::platform::HostOs::Windows && !crate::text::has_suffix(lower(info.name@), ".exe"@) {
                    info.name@ + ".exe"@
                } else {
                    info.name@
                },
            ),
        },
{
    if str_eq(info.profile.as_str(), profile) {
        if let Some(p) = &info.artifact_path {
            return LaunchProgram::Known(p.clone());
        }
    }
    let fname = match &info.output_filename {
        Some(f) => Some(f.as_str()),
        None => None,
    };
    let fext = match &info.output_extension {
        Some(f) => Some(f.as_str()),
        None => None,
    };
    match crate::build::artifact::resolve_artifact_path(
        host,
        info.kind.as_str(),
        profile,
        info.name.as_str(),
        Some(target_dir),
        fname,
        fext,
    ) {
        Some(rel) => LaunchProgram::Artifact(crate::build::artifact::absolute_artifact_path(info.root.as_str(), rel.as_str())),
        None => {
            let is_windows = match host.os {
                crate::platform::HostOs::Windows => true,
                _ => false,
            };
            let l = lower_exec(info.name.as_str());
            let name = if is_windows && !crate::text::ends_with(l.as_str(), ".exe") {
                concat2(info.name.as_str(), ".exe")
            } else {
                info.name.clone()
            };
            LaunchProgram::Fallback(join_exec(target_dir, name.as_str()))
        },
    }
}

// ---------------------------------------------------------------------------
// Tools, debugger and clangd configuration
// ---------------------------------------------------------------------------

/// A tool name is looked up as a path (not on `PATH`) when it holds a separator.
pub open spec fn names_a_path_spec(name: Seq<char>) -> bool {
    crate::text::has_char(name, '/') || crate::text::has_char(name, '\\')
}

/// Whether a tool name is a path rather than a program to find on `PATH`.
pub fn names_a_path(name: &str) -> (r: bool)
    ensures
        r == names_a_path_spec(name@),
{
    crate::text::has_char_exec(name, '/') || crate::text::has_char_exec(name, '\\')
}

/// The tool path recorded for a configured tool: none for a blank name; the
/// location found for the trimmed name (`found`) when there is one; else the
/// trimmed name as given.
pub open spec fn tool_path_spec(name: Seq<char>, found: Option<Seq<char>>) -> Option<Seq<char>> {
    let t = crate::text::trim(name);
    if t.len() == 0 {
        None
    } else {
        match found {
            Some(f) => Some(f),
            None => Some(t),
        }
    }
}

/// The recorded path of a configured tool (see `tool_path_spec`).
pub fn tool_path(name: &str, found: Option<String>) -> (r: Option<String>)
    ensures
        crate::deps::opt_string_view(r) == tool_path_spec(name@, crate::deps::opt_string_view(found)),
{
    let t = crate::text::trim_exec(name);
    if t.as_str().is_empty() {
        return None;
    }
    match found {
        Some(f) => Some(f),
        None => Some(t),
    }
}

/// The debugger: the configured one when set and not blank (trimmed); else the
/// first of `lldb` and `gdb` found on `PATH`; else `cppvsdbg` on Windows and
/// `lldb` elsewhere.
pub open spec fn debugger_spec(configured: Option<Seq<char>>, lldb_found: bool, gdb_found: bool, windows: bool) -> Seq<char> {
    let c = match configured {
        Some(d) => crate::text::trim(d),
        None => Seq::empty(),
    };
    if c.len() > 0 {
        c
    } else if lldb_found {
        "lldb"@
    } else if gdb_found {
        "gdb"@
    } else if windows {
        "cppvsdbg"@
    } else {
        "lldb"@
    }
}

/// Chooses the debugger (see `debugger_spec`).
pub fn choose_debugger(configured: Option<&str>, lldb_found: bool, gdb_found: bool, windows: bool) -> (r: String)
    ensures
        r@ == debugger_spec(crate::platform::opt_view(configured), lldb_found, gdb_found, windows),
{
    if let Some(d) = configured {
        let t = crate::text::trim_exec(d);
        if !t.as_str().is_empty() {
            return t;
        }
    }
    proof {
        reveal_strlit("");
    }
    if lldb_found {
        String::from_str("lldb")
    } else if gdb_found {
        String::from_str("gdb")
    } else if windows {
        String::from_str("cppvsdbg")
    } else {
        String::from_str("lldb")
    }
}

/// The `.clangd` file `dcr gen` manages.
pub const CLANGD_CONFIG: &'static str = "# managed by dcr gen\nCompileFlags:\n  CompilationDatabase: .dcr\n";

/// What to do with `.clangd`: write it when there is none; leave it when it is
/// managed by dcr or already points at `.dcr`; leave it (with a warning) when
/// it is someone else's.
#[derive(Debug, Clone, Copy, PartialEq, Eq, Structural)]
pub enum ClangdAction {
    Write,
    KeepManaged,
    KeepForeign,
}

/// The `.clangd` decision for the current content (`None`: no file).
pub open spec fn clangd_action_spec(existing: Option<Seq<char>>) -> ClangdAction {
    match existing {
        None => ClangdAction::Write,
        Some(c) => if crate::text::contains(c, "# managed by dcr gen"@) || crate::text::contains(
            c,
            "CompilationDatabase: .dcr"@,
        ) {
            ClangdAction::KeepManaged
        } else {
            ClangdAction::KeepForeign
        },
    }
}

/// Decides what to do with `.clangd`.
pub fn clangd_action(existing: Option<&str>) -> (r: ClangdAction)
    ensures
        r == clangd_action_spec(crate::platform::opt_view(existing)),
{
    match existing {
        None => ClangdAction::Write,
        Some(c) => if crate::text::contains_str(c, "# managed by dcr gen") || crate::text::contains_str(
            c,
            "CompilationDatabase: .dcr",
        ) {
            ClangdAction::KeepManaged
        } else {
            ClangdAction::KeepForeign
        },
    }
}

} // verus!
