use dcr::cli::calendar::{civil_from_days, utc_iso};
use dcr::cli::clean::{clean_action, parse_clean_flags, CleanAction};
use dcr::cli::flags::BuildRunFlags;
use dcr::cli::gen::{debug_type_for, json_str, json_str_array, sanitize_filename, strip_src_prefix, xml_escape};
use dcr::cli::ide::{
    build_compile_command, choose_debugger, clangd_action, compile_commands_json, gen_launch_json, gen_settings_json,
    launch_entry, names_a_path, parse_gen_flags, tool_path, ClangdAction, ProjectInfo, CLANGD_CONFIG,
};
use dcr::cli::lint::{issue_lines, lines, lint_roots, tidy_args};
use dcr::cli::project::{check_init, check_new, choose_vcs, parse_vcs_args, ProjectError};
use dcr::cli::run::{args_for_build, check_runnable, substitute_run_vars, VersionInfo};
use dcr::cli::update::{asset_candidates, is_current_release, pick_asset, temp_binary_path};
use dcr::deps::VcsKind;

fn s(v: &[&str]) -> Vec<String> {
    v.iter().map(|x| x.to_string()).collect()
}

fn info(root: &str) -> ProjectInfo {
    ProjectInfo {
        name: "app".to_string(),
        version: "1.0.0".to_string(),
        root: root.to_string(),
        profile: "debug".to_string(),
        language: "c".to_string(),
        standard: "c11".to_string(),
        cxx_standard: "c++17".to_string(),
        compiler: "clang".to_string(),
        kind: "bin".to_string(),
        target: String::new(),
        target_dir: None,
        artifact_path: None,
        artifact_kind: "bin".to_string(),
        sources: vec![],
        include_dirs: s(&["include"]),
        lib_dirs: vec![],
        libs: vec![],
        cflags: s(&["-Ivendor", "-DX"]),
        ldflags: vec![],
        source_roots: vec![],
        include_globs: vec![],
        exclude_globs: vec![],
        output_filename: None,
        output_extension: None,
        out_dir: String::new(),
        debugger: "lldb".to_string(),
        moc: None,
        uic: None,
        rcc: None,
        workspace_root: None,
    }
}

#[test]
fn vcs_arguments() {
    assert_eq!(parse_vcs_args(&s(&["--vcs", "none", "app"])), Ok((Some("none".to_string()), s(&["app"]))));
    assert_eq!(parse_vcs_args(&s(&["--vcs=git", "x"])), Ok((Some("git".to_string()), s(&["x"]))));
    assert_eq!(parse_vcs_args(&s(&["--vcs=git", "--vcs", "none"])), Ok((Some("none".to_string()), vec![])));
    assert_eq!(parse_vcs_args(&s(&["app", "--vcs"])), Err(ProjectError::MissingVcsValue));
}

#[test]
fn new_project_checks() {
    assert_eq!(check_new(&[], &[]), Err(ProjectError::MissingName));
    assert_eq!(check_new(&s(&["a", "b"]), &[]), Err(ProjectError::ExtraArgs));
    assert_eq!(
        check_new(&s(&["bad name"]), &[]),
        Err(ProjectError::InvalidName(
            "Invalid config: package.name must contain only ASCII letters, digits, '_' or '-'".to_string()
        ))
    );
    assert_eq!(check_new(&s(&["app"]), &s(&["app"])), Err(ProjectError::AlreadyExists));
    assert_eq!(check_new(&s(&["app", "--vcs", "none"]), &s(&["other"])), Ok(("app".to_string(), Some("none".to_string()))));
    assert_eq!(ProjectError::MissingName.message(), "Project name not specified");
}

#[test]
fn init_project_checks() {
    assert_eq!(check_init(&[], 0, "proj"), Ok(None));
    assert_eq!(check_init(&[], 2, "proj"), Err(ProjectError::DirNotEmpty));
    assert_eq!(check_init(&s(&["x"]), 0, "proj"), Err(ProjectError::ExtraArgs));
    assert_eq!(check_init(&s(&["--vcs"]), 3, "proj"), Err(ProjectError::MissingVcsValue));
    assert!(matches!(check_init(&[], 0, "my proj"), Err(ProjectError::InvalidName(_))));
    assert_eq!(check_init(&s(&["--vcs=none"]), 0, "proj"), Ok(Some("none".to_string())));
}

#[test]
fn vcs_choice() {
    assert_eq!(choose_vcs(None, false), Ok(VcsKind::Git));
    assert_eq!(choose_vcs(None, true), Ok(VcsKind::NoVcs));
    assert_eq!(choose_vcs(Some("NONE"), false), Ok(VcsKind::NoVcs));
    assert_eq!(choose_vcs(Some("git"), true), Ok(VcsKind::Git));
    assert_eq!(choose_vcs(Some("svn"), false), Err("Unknown VCS: svn".to_string()));
}

#[test]
fn lint_helpers() {
    assert_eq!(lint_roots(&[], false, "/p"), s(&["/p/src"]));
    assert!(lint_roots(&[], true, "/p").is_empty());
    assert_eq!(lint_roots(&s(&["lib", "/abs"]), false, "/p"), s(&["/p/lib", "/abs"]));
    assert_eq!(tidy_args(true, "a.c"), s(&["--fix", "--quiet", "a.c"]));
    assert_eq!(tidy_args(false, "a.c"), s(&["--quiet", "a.c"]));
}

#[test]
fn lines_follow_str_lines() {
    for text in ["a\r\nb\n\nc", "x\n", "", "a\r", "\n\n", "one"] {
        let expected: Vec<String> = text.lines().map(|l| l.to_string()).collect();
        assert_eq!(lines(text), expected, "text {:?}", text);
    }
    assert_eq!(
        issue_lines("ok\nfoo.c:1:2: warning: unused\nerror: bad\r\n"),
        s(&["foo.c:1:2: warning: unused", "error: bad"])
    );
}

#[test]
fn clean_arguments_and_actions() {
    let f = parse_clean_flags(&s(&["--release", "--all"])).unwrap();
    assert_eq!(f.profile, Some("release".to_string()));
    assert!(f.all);
    assert_eq!(parse_clean_flags(&s(&["--debug", "--release"])).err(), Some("Duplicate profile flag".to_string()));
    assert_eq!(parse_clean_flags(&s(&["--bogus"])).err(), Some("Unknown argument".to_string()));
    assert_eq!(clean_action(&s(&["dcr.toml", "src"]), &[], None), Ok(CleanAction::NoTarget));
    assert_eq!(clean_action(&s(&["src"]), &[], None), Err("dcr.toml file not found".to_string()));
    let entries = s(&["dcr.toml", "target"]);
    let target = s(&["debug"]);
    assert_eq!(clean_action(&entries, &target, Some("release")), Ok(CleanAction::NoProfileDir("release".to_string())));
    assert_eq!(clean_action(&entries, &target, Some("debug")), Ok(CleanAction::RemoveProfile("debug".to_string())));
    assert_eq!(clean_action(&entries, &target, None), Ok(CleanAction::RemoveAll));
}

#[test]
fn run_helpers() {
    let v = VersionInfo {
        full: "1.2.3-rc1".to_string(),
        major: "1".to_string(),
        minor: "2".to_string(),
        patch: "3".to_string(),
        suffix: "rc1".to_string(),
        suffix_dash: "-rc1".to_string(),
    };
    assert_eq!(
        substitute_run_vars("qemu {profile}/{version} v{version_major}.{version_minor}.{version_patch}{version_suffix_dash} {version_suffix}", "release", &v),
        "qemu release/1.2.3-rc1 v1.2.3-rc1 rc1"
    );
    assert!(check_runnable("bin", false).is_ok());
    assert_eq!(check_runnable(" staticlib ", false), Err("Cannot run library build".to_string()));
    assert!(check_runnable("efi", true).is_ok());
    let flags = BuildRunFlags {
        profile: "release".to_string(),
        target: Some("linux".to_string()),
        workspace: Some("core".to_string()),
        force: true,
        clean: false,
        verbose: true,
        print_artifact_path: false,
        bin_args: vec![],
    };
    assert_eq!(args_for_build(&flags), s(&["--release", "--target", "linux", "--workspace", "core", "--verbose"]));
}

#[test]
fn update_helpers() {
    assert_eq!(asset_candidates("x86_64-unknown-linux-gnu"), s(&["dcr-x86_64-unknown-linux-gnu"]));
    assert_eq!(
        asset_candidates("x86_64-pc-windows-msvc"),
        s(&["dcr-x86_64-pc-windows-msvc", "dcr-x86_64-pc-windows-msvc.exe"])
    );
    assert!(is_current_release("v1.4.0", "1.4.0"));
    assert!(!is_current_release("v1.5.0", "1.4.0"));
    assert_eq!(pick_asset(&s(&["a", "dcr-x", "dcr-y"]), &s(&["dcr-y", "dcr-x"])), Some(1));
    assert_eq!(pick_asset(&s(&["a"]), &s(&["b"])), None);
    assert_eq!(temp_binary_path("/usr/bin/dcr", "1700", false), "/usr/bin/dcr.new-1700");
    assert_eq!(temp_binary_path("C/dcr.exe", "5", true), "C/dcr.new-5.exe");
}

#[test]
fn calendar_timestamps() {
    assert_eq!(civil_from_days(0), (1970, 1, 1));
    assert_eq!(civil_from_days(19723), (2024, 1, 1));
    assert_eq!(civil_from_days(-1), (1969, 12, 31));
    assert_eq!(utc_iso(0), "1970-01-01T00:00:00Z");
    assert_eq!(utc_iso(1709210096), "2024-02-29T12:34:56Z");
}

#[test]
fn text_escapes() {
    assert_eq!(json_str("a\"b\\c\n\u{1}"), "\"a\\\"b\\\\c\\n\\u0001\"");
    assert_eq!(json_str_array(&s(&["x", "y"])), "[\"x\", \"y\"]");
    assert_eq!(xml_escape("<a href=\"x\">&'"), "&lt;a href=&quot;x&quot;&gt;&amp;&apos;");
    assert_eq!(sanitize_filename("my app/v1.0"), "my_app_v1_0");
    assert_eq!(sanitize_filename("héllo-wörld_1"), "héllo-wörld_1");
    assert_eq!(strip_src_prefix("./src/main.c"), "src/main.c");
    assert_eq!(strip_src_prefix("src\\main.c"), "main.c");
    assert_eq!(strip_src_prefix("lib/a.c"), "lib/a.c");
    assert_eq!(debug_type_for(false, "GDB"), "cppdbg");
    assert_eq!(debug_type_for(true, "vsdbg"), "cppvsdbg");
    assert_eq!(debug_type_for(false, "vsdbg"), "lldb");
}

#[test]
fn ide_generation() {
    assert_eq!(parse_gen_flags(&s(&["--release", "-q"])), ("release".to_string(), true));
    assert_eq!(parse_gen_flags(&s(&["--release", "--debug", "x"])), ("debug".to_string(), false));
    let i = info("/p");
    assert_eq!(
        build_compile_command(&i, "src/main.c", "debug", None),
        s(&[
            "clang",
            "-c",
            "/p/src/main.c",
            "-o",
            "/p/target/debug/obj/src/main.o",
            "-std=c11",
            "-O0",
            "-g",
            "-Wall",
            "-Wextra",
            "-fno-omit-frame-pointer",
            "-DDCR_DEBUG",
            "-I/p/vendor",
            "-DX",
            "-I/p/include"
        ])
    );
    assert_eq!(compile_commands_json(&s(&["{a}", "{b}"])), "[\n{a},\n{b}\n]\n");
    assert!(gen_settings_json("/p").contains("--compile-commands-dir=/p/.dcr"));
    let e = launch_entry("app", "debug", "lldb", "/p/app", "/p");
    assert!(e.contains("\"name\": \"app (debug)\""));
    assert!(e.contains("\"preLaunchTask\": \"dcr: build (debug)\""));
    let l = gen_launch_json(&vec![]);
    assert!(l.contains("placeholder"));
}

#[test]
fn tools_and_debugger_choice() {
    assert!(names_a_path("/usr/bin/moc"));
    assert!(names_a_path("bin\\moc.exe"));
    assert!(!names_a_path("moc"));
    assert_eq!(tool_path("  ", Some("/x".to_string())), None);
    assert_eq!(tool_path(" moc ", None), Some("moc".to_string()));
    assert_eq!(tool_path("moc", Some("/usr/bin/moc".to_string())), Some("/usr/bin/moc".to_string()));
    assert_eq!(choose_debugger(Some(" gdb "), true, true, false), "gdb");
    assert_eq!(choose_debugger(Some("  "), false, true, false), "gdb");
    assert_eq!(choose_debugger(None, true, true, false), "lldb");
    assert_eq!(choose_debugger(None, false, false, true), "cppvsdbg");
    assert_eq!(choose_debugger(None, false, false, false), "lldb");
    assert_eq!(clangd_action(None), ClangdAction::Write);
    assert_eq!(clangd_action(Some(CLANGD_CONFIG)), ClangdAction::KeepManaged);
    assert_eq!(clangd_action(Some("CompileFlags:\n  CompilationDatabase: .dcr\n")), ClangdAction::KeepManaged);
    assert_eq!(clangd_action(Some("CompileFlags:\n  Add: [-Wall]\n")), ClangdAction::KeepForeign);
}

#[test]
fn run_hands_its_flags_to_build() {
    let flags = BuildRunFlags {
        profile: "release".to_string(),
        target: Some("aarch64-linux".to_string()),
        workspace: Some("core".to_string()),
        force: true,
        clean: true,
        verbose: true,
        print_artifact_path: true,
        bin_args: vec!["--x".to_string()],
    };
    let back = dcr::cli::flags::parse_build_run_flags(&args_for_build(&flags)).unwrap();
    assert_eq!(back.profile, "release");
    assert_eq!(back.target.as_deref(), Some("aarch64-linux"));
    assert_eq!(back.workspace.as_deref(), Some("core"));
    assert!(back.verbose && !back.force && !back.clean && !back.print_artifact_path);
    assert!(back.bin_args.is_empty());
}

#[test]
fn version_parts() {
    let v = dcr::cli::run::parse_version_info("1.2.3-beta.1");
    assert_eq!((v.full.as_str(), v.major.as_str(), v.minor.as_str(), v.patch.as_str()), ("1.2.3-beta.1", "1", "2", "3"));
    assert_eq!((v.suffix.as_str(), v.suffix_dash.as_str()), ("beta.1", "-beta.1"));
    let w = dcr::cli::run::parse_version_info("2.0");
    assert_eq!((w.major.as_str(), w.minor.as_str(), w.patch.as_str(), w.suffix.as_str(), w.suffix_dash.as_str()), ("2", "0", "", "", ""));
    let e = dcr::cli::run::parse_version_info("");
    assert_eq!((e.major.as_str(), e.minor.as_str()), ("", ""));
}
