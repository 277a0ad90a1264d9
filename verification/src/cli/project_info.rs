//! What `dcr gen` records of a project: its settings read from the manifest,
//! together with what was found on disk (the probes).
use vstd::prelude::*;

use crate::build::artifact::{absolute_artifact_path, absolute_artifact_path_spec, resolve_artifact_path, resolve_artifact_path_spec};
use crate::build::settings::{normalize_kind, normalize_kind_spec, primary_language, primary_language_spec, resolve_compiler, resolve_compiler_spec};
use crate::build_config::Config;
use crate::cli::ide::{choose_debugger, debugger_spec, tool_path, tool_path_spec, ProjectInfo};
use crate::deps::{joined_all, opt_string_view, push_joined, ResolvedDeps};
use crate::platform::{opt_view, Host, HostOs};
use crate::resolve::{config_str_spec, get_config_str, get_list_with_profile, get_string_with_profile_and_target, list_setting, string_setting};
use crate::text::{concat2, trim, trim_exec, views};
use crate::value::Toml;

verus! {

/// What was found on disk for a project.
pub struct GenProbes {
    /// The target directory, made absolute and canonical.
    pub target_dir: String,
    /// The sources collected under the source roots.
    pub sources: Vec<String>,
    /// The dependencies as `dcr gen` describes them (see `push_gen_dep`).
    pub deps: ResolvedDeps,
    /// The `include` candidates that are directories.
    pub existing_includes: Vec<String>,
    /// The compile and link flags with those of `pkg-config` added.
    pub cflags: Vec<String>,
    pub ldflags: Vec<String>,
    /// The source roots, canonical.
    pub source_roots: Vec<String>,
    /// Whether `lldb` and `gdb` are on `PATH`.
    pub lldb_found: bool,
    pub gdb_found: bool,
    /// Where the configured `moc`, `uic` and `rcc` were found, if they were.
    pub moc_found: Option<String>,
    pub uic_found: Option<String>,
    pub rcc_found: Option<String>,
    /// The workspace root, canonical, for a member.
    pub workspace_root: Option<String>,
}

/// A text as an option: none when it is blank.
pub open spec fn nonblank(s: Seq<char>) -> Option<Seq<char>> {
    if trim(s).len() == 0 {
        None
    } else {
        Some(s)
    }
}

/// A text as an option: none when it is empty.
pub open spec fn nonempty(s: Seq<char>) -> Option<Seq<char>> {
    if s.len() == 0 {
        None
    } else {
        Some(s)
    }
}

/// The configured `toolchain.<key>`, unless blank.
pub open spec fn tool_spec(data: Toml, key: Seq<char>) -> Option<Seq<char>> {
    nonblank(config_str_spec(data, "toolchain."@ + key))
}

/// A list setting, or nothing when it is malformed.
pub open spec fn list_or_empty(r: Result<Seq<Seq<char>>, Seq<char>>) -> Seq<Seq<char>> {
    match r {
        Ok(v) => v,
        Err(_) => Seq::empty(),
    }
}

/// The `[build]` setting `field` for the profile.
pub open spec fn gen_setting(data: Toml, field: Seq<char>, profile: Seq<char>) -> Seq<char> {
    string_setting(data, field, profile, None)
}

/// The language: the setting, or `c` when it is not set.
pub open spec fn gen_language(data: Toml, profile: Seq<char>) -> Seq<char> {
    let l = gen_setting(data, "language"@, profile);
    if l.len() == 0 {
        "c"@
    } else {
        l
    }
}

/// A configured Qt tool's recorded path.
pub open spec fn qt_tool_spec(data: Toml, key: Seq<char>, found: Option<Seq<char>>) -> Option<Seq<char>> {
    match tool_spec(data, key) {
        Some(n) => tool_path_spec(n, found),
        None => None,
    }
}

fn tool(config: &Config, key: &str) -> (r: Option<String>)
    ensures
        opt_string_view(r) == tool_spec(config.data_model(), key@),
{
    let k = concat2("toolchain.", key);
    let v = get_config_str(config, k.as_str());
    let t = trim_exec(v.as_str());
    if t.as_str().is_empty() {
        None
    } else {
        Some(v)
    }
}

fn list_or_empty_exec(config: &Config, field: &str, profile: &str) -> (r: Vec<String>)
    ensures
        views(r@) == list_or_empty(list_setting(config.data_model(), field@, profile@, None)),
{
    match get_list_with_profile(config, field, profile) {
        Ok(v) => v,
        Err(_) => Vec::new(),
    }
}

fn joined(root: &str, items: &Vec<String>) -> (r: Vec<String>)
    ensures
        views(r@) == joined_all(root@, views(items@)),
{
    let mut out: Vec<String> = Vec::new();
    push_joined(&mut out, root, items);
    assert(views(out@) =~= joined_all(root@, views(items@)));
    out
}

fn opt_str(o: &Option<String>) -> (r: Option<&str>)
    ensures
        opt_view(r) == opt_string_view(*o),
{
    match o {
        Some(s) => Some(s.as_str()),
        None => None,
    }
}

/// What `dcr gen` records of the project at `root` for `profile`: the
/// manifest's settings (language, standards, compiler chosen with the
/// toolchain, normalized kind, target, output name), the artifact path for
/// the probed target directory, the sources and directories found on disk
/// joined onto the root, the flags, the debugger chosen from the toolchain
/// or what is on `PATH`, and the Qt tools' recorded paths.
pub fn project_info(config: &Config, profile: &str, root: &str, host: &Host, probes: GenProbes) -> (r: ProjectInfo)
    ensures
        ({
            let d = config.data_model();
            let language = gen_language(d, profile@);
            let kind = normalize_kind_spec(gen_setting(d, "kind"@, profile@));
            let name = config_str_spec(d, "package.name"@);
            let filename = nonempty(gen_setting(d, "filename"@, profile@));
            let extension = nonempty(gen_setting(d, "extension"@, profile@));
            &&& r.name@ == name
            &&& r.version@ == config_str_spec(d, "package.version"@)
            &&& r.root@ == root@
            &&& r.profile@ == profile@
            &&& r.language@ == language
            &&& r.standard@ == gen_setting(d, "standard"@, profile@)
            &&& r.cxx_standard@ == gen_setting(d, "cxx_standard"@, profile@)
            &&& r.compiler@ == resolve_compiler_spec(
                primary_language_spec(language),
                gen_setting(d, "compiler"@, profile@),
                tool_spec(d, "cc"@),
                tool_spec(d, "cxx"@),
                tool_spec(d, "as"@),
            )
            &&& r.kind@ == kind && r.artifact_kind@ == kind
            &&& r.target@ == gen_setting(d, "target"@, profile@)
            &&& opt_string_view(r.target_dir) == Some(probes.target_dir@)
            &&& opt_string_view(r.artifact_path) == match resolve_artifact_path_spec(
                *host,
                kind,
                profile@,
                name,
                Some(probes.target_dir@),
                filename,
                extension,
            ) {
                Some(rel) => Some(absolute_artifact_path_spec(root@, rel)),
                None => None,
            }
            &&& views(r.sources@) == joined_all(root@, views(probes.sources@))
            &&& views(r.include_dirs@) == joined_all(root@, views(probes.deps.include_dirs@) + views(probes.existing_includes@))
            &&& views(r.lib_dirs@) == joined_all(root@, views(probes.deps.lib_dirs@))
            &&& views(r.libs@) == views(probes.deps.libs@)
            &&& views(r.cflags@) == views(probes.cflags@)
            &&& views(r.ldflags@) == views(probes.ldflags@)
            &&& views(r.source_roots@) == views(probes.source_roots@)
            &&& views(r.include_globs@) == list_or_empty(list_setting(d, "include"@, profile@, None))
            &&& views(r.exclude_globs@) == list_or_empty(list_setting(d, "exclude"@, profile@, None))
            &&& opt_string_view(r.output_filename) == filename
            &&& opt_string_view(r.output_extension) == extension
            &&& r.out_dir@ == gen_setting(d, "out_dir"@, profile@)
            &&& r.debugger@ == debugger_spec(
                tool_spec(d, "debugger"@),
                probes.lldb_found,
                probes.gdb_found,
                host.os == HostOs::Windows,
            )
            &&& opt_string_view(r.moc) == qt_tool_spec(d, "moc"@, opt_string_view(probes.moc_found))
            &&& opt_string_view(r.uic) == qt_tool_spec(d, "uic"@, opt_string_view(probes.uic_found))
            &&& opt_string_view(r.rcc) == qt_tool_spec(d, "rcc"@, opt_string_view(probes.rcc_found))
            &&& opt_string_view(r.workspace_root) == opt_string_view(probes.workspace_root)
        }),
{
    let setting = |field: &str| -> (s: String)
        ensures
            s@ == gen_setting(config.data_model(), field@, profile@),
        { get_string_with_profile_and_target(config, field, profile, None) };
    let name = get_config_str(config, "package.name");
    let version = get_config_str(config, "package.version");
    let mut language = setting("language");
    if language.as_str().is_empty() {
        language = String::from_str("c");
    }
    let kind = normalize_kind(setting("kind").as_str());
    let lang_key = primary_language(language.as_str());
    let cc = tool(config, "cc");
    let cxx = tool(config, "cxx");
    let asm_tool = tool(config, "as");
    let compiler = resolve_compiler(
        lang_key.as_str(),
        setting("compiler").as_str(),
        opt_str(&cc),
        opt_str(&cxx),
        opt_str(&asm_tool),
    );
    let f = setting("filename");
    let e = setting("extension");
    let output_filename = if f.as_str().is_empty() { None } else { Some(f) };
    let output_extension = if e.as_str().is_empty() { None } else { Some(e) };
    let artifact_path = match resolve_artifact_path(
        host,
        kind.as_str(),
        profile,
        name.as_str(),
        Some(probes.target_dir.as_str()),
        opt_str(&output_filename),
        opt_str(&output_extension),
    ) {
        Some(rel) => Some(absolute_artifact_path(root, rel.as_str())),
        None => None,
    };
    let mut include_dirs: Vec<String> = Vec::new();
    push_joined(&mut include_dirs, root, &probes.deps.include_dirs);
    push_joined(&mut include_dirs, root, &probes.existing_includes);
    proof {
        assert(joined_all(root@, views(probes.deps.include_dirs@) + views(probes.existing_includes@)) =~= joined_all(
            root@,
            views(probes.deps.include_dirs@),
        ) + joined_all(root@, views(probes.existing_includes@)));
        assert(views(include_dirs@) =~= joined_all(root@, views(probes.deps.include_dirs@) + views(probes.existing_includes@)));
    }
    let debugger_cfg = tool(config, "debugger");
    let windows = match host.os {
        HostOs::Windows => true,
        _ => false,
    };
    let debugger = choose_debugger(opt_str(&debugger_cfg), probes.lldb_found, probes.gdb_found, windows);
    let moc = match tool(config, "moc") {
        Some(n) => tool_path(n.as_str(), probes.moc_found),
        None => None,
    };
    let uic = match tool(config, "uic") {
        Some(n) => tool_path(n.as_str(), probes.uic_found),
        None => None,
    };
    let rcc = match tool(config, "rcc") {
        Some(n) => tool_path(n.as_str(), probes.rcc_found),
        None => None,
    };
    ProjectInfo {
        name,
        version,
        root: String::from_str(root),
        profile: String::from_str(profile),
        language,
        standard: setting("standard"),
        cxx_standard: setting("cxx_standard"),
        compiler,
        kind: kind.clone(),
        target: setting("target"),
        target_dir: Some(probes.target_dir),
        artifact_path,
        artifact_kind: kind,
        sources: joined(root, &probes.sources),
        include_dirs,
        lib_dirs: joined(root, &probes.deps.lib_dirs),
        libs: probes.deps.libs,
        cflags: probes.cflags,
        ldflags: probes.ldflags,
        source_roots: probes.source_roots,
        include_globs: list_or_empty_exec(config, "include", profile),
        exclude_globs: list_or_empty_exec(config, "exclude", profile),
        output_filename,
        output_extension,
        out_dir: setting("out_dir"),
        debugger,
        moc,
        uic,
        rcc,
        workspace_root: probes.workspace_root,
    }
}

} // verus!
