use dcr::deps::{
    escape_value, find_package, gen_dep_root, git_dep, push_gen_dep, has_complete_prebuilt_layout, is_registry_dep, lock_text, package_root_of,
    path_dep_path, push_unique_path, quote_list, registry_package_path, registry_path_to_pathbuf,
    resolve_path_dep, use_dcr_package, DepLock, DirProbe, RegistryPath, ResolvedDeps, VcsKind,
};
use dcr::value::TomlValue;

fn table(entries: Vec<(&str, TomlValue)>) -> TomlValue {
    let mut out = Vec::new();
    for (k, v) in entries {
        dcr::value::table_insert(&mut out, k.to_string(), v);
    }
    TomlValue::Table(out)
}

fn s(x: &str) -> TomlValue {
    TomlValue::String(x.to_string())
}

fn strs(xs: &[&str]) -> TomlValue {
    TomlValue::Array(xs.iter().map(|x| s(x)).collect())
}

#[test]
fn registry_dep_detection_excludes_local_and_git_strings() {
    assert!(is_registry_dep(&s("1.2.3")));
    assert!(!is_registry_dep(&s("path:./libs/mylib")));
    assert!(!is_registry_dep(&s("./libs/mylib")));
    assert!(!is_registry_dep(&s("git:https://example.com/repo.git")));
}

#[test]
fn registry_dep_detection_excludes_source_tables() {
    let path_table = table(vec![("path", s("./libs/mylib"))]);
    assert!(!is_registry_dep(&path_table));
    let registry_table = table(vec![("features", TomlValue::Array(Vec::new()))]);
    assert!(is_registry_dep(&registry_table));
}

#[test]
fn path_dep_path_supports_table_and_legacy_strings() {
    let t = table(vec![("path", s("./libs/mylib"))]);
    assert_eq!(path_dep_path(&t).as_deref(), Some("./libs/mylib"));
    assert_eq!(path_dep_path(&s("path:./libs/mylib")).as_deref(), Some("./libs/mylib"));
    assert_eq!(path_dep_path(&s("./libs/mylib")).as_deref(), Some("./libs/mylib"));
    assert_eq!(path_dep_path(&s("1.2.3")), None);
}

#[test]
fn registry_path_strips_windows_extended_prefix() {
    let p = registry_path_to_pathbuf("//?/D:/cache/mylib").under("/cache");
    let s = p.replace('\\', "/");
    assert_eq!(s, "D:/cache/mylib");

    let p2 = registry_path_to_pathbuf("/D:/cache/mylib").under("/cache");
    let s2 = p2.replace('\\', "/");
    assert_eq!(s2, "D:/cache/mylib");

    let p3 = registry_path_to_pathbuf("file:///D:/cache/mylib").under("/cache");
    let s3 = p3.replace('\\', "/");
    assert_eq!(s3, "D:/cache/mylib");
}

#[test]
fn registry_paths_relative_to_cache() {
    match registry_path_to_pathbuf("pkgs\\zlib") {
        RegistryPath::CacheRelative(p) => assert_eq!(p, "pkgs/zlib"),
        _ => panic!("expected a cache-relative path"),
    }
    assert_eq!(registry_path_to_pathbuf("pkgs/zlib").under("/home/u/.dcr"), "/home/u/.dcr/pkgs/zlib");
    assert_eq!(registry_path_to_pathbuf("file://srv/pkgs").under("/x"), "/srv/pkgs");
}

#[test]
fn registry_package_root_accepts_package_dir_or_manifest_path() {
    let root = "/tmp/dcr_reg_pkg";
    let p = registry_package_path(Some(root)).unwrap().under("/cache");
    assert_eq!(package_root_of(&p), root);
    let manifest = format!("{root}/dcr.toml");
    let p = registry_package_path(Some(&manifest)).unwrap().under("/cache");
    assert_eq!(package_root_of(&p), root);
    assert!(registry_package_path(None).is_err());
    assert_eq!(registry_package_path(Some("  ")).err().unwrap(), "Registry package path is empty");
}

#[test]
fn prebuilt_layout_needs_all_three_lists() {
    let full = table(vec![("include", strs(&["inc"])), ("lib", strs(&["lib"])), ("libs", strs(&["z"]))]);
    assert!(has_complete_prebuilt_layout(&full));
    let partial = table(vec![("include", strs(&["inc"])), ("lib", strs(&[])), ("libs", strs(&["z"]))]);
    assert!(!has_complete_prebuilt_layout(&partial));
}

#[test]
fn dependency_mode_selects_build() {
    assert_eq!(use_dcr_package(&s("1.0"), true, "x"), Ok(true));
    let prebuild = table(vec![("mode", s("prebuild"))]);
    assert_eq!(use_dcr_package(&prebuild, true, "x"), Ok(false));
    let build = table(vec![("mode", s("build"))]);
    assert_eq!(
        use_dcr_package(&build, false, "x"),
        Err("Dependency `x` uses mode = \"build\" but has no dcr.toml".to_string())
    );
    let bad = table(vec![("mode", TomlValue::Integer(1))]);
    assert_eq!(
        use_dcr_package(&bad, true, "x"),
        Err("Dependency `x` field `mode` must be \"build\" or \"prebuild\"".to_string())
    );
}

#[test]
fn path_dependency_with_manifest_adds_package_outputs() {
    let mut r = ResolvedDeps { include_dirs: vec![], lib_dirs: vec![], libs: vec![], package_roots: vec![] };
    let probe = DirProbe { include_dir: true, lib: false, lib64: false, target_lib: true };
    resolve_path_dep(&mut r, &s("./libs/z"), "zdep", "/p/libs/z", Some("zlib"), &probe).unwrap();
    assert_eq!(r.include_dirs, vec!["/p/libs/z/include", "/p/libs/z/target/include"]);
    assert_eq!(r.lib_dirs, vec!["/p/libs/z/target/lib", "/p/libs/z/target/lib"]);
    assert_eq!(r.libs, vec!["zlib"]);
    assert_eq!(r.package_roots, vec!["/p/libs/z"]);
}

#[test]
fn path_dependency_without_manifest_needs_layout() {
    let mut r = ResolvedDeps { include_dirs: vec![], lib_dirs: vec![], libs: vec![], package_roots: vec![] };
    let probe = DirProbe { include_dir: false, lib: false, lib64: false, target_lib: false };
    let e = resolve_path_dep(&mut r, &s("./libs/z"), "zdep", "/p/libs/z", None, &probe);
    assert_eq!(
        e,
        Err("Path dependency `zdep` has no dcr.toml; specify include, lib, and libs for a prebuilt library".to_string())
    );
}

#[test]
fn push_unique_keeps_order() {
    let mut v = vec!["a".to_string()];
    push_unique_path(&mut v, "b".to_string());
    push_unique_path(&mut v, "a".to_string());
    assert_eq!(v, vec!["a", "b"]);
}

#[test]
fn git_dependency_fields() {
    let t = table(vec![("git", s("https://x/y.git")), ("tag", s("v1"))]);
    let g = git_dep(&t).unwrap();
    assert_eq!(g.url, "https://x/y.git");
    assert_eq!(g.tag.as_deref(), Some("v1"));
    assert!(g.branch.is_none());
    assert!(git_dep(&s("git:x")).is_none());
}

#[test]
fn lock_text_layout() {
    assert_eq!(escape_value("a\"b\\c"), "a\\\"b\\\\c");
    assert_eq!(quote_list(&["x".to_string(), "y".to_string()]), "\"x\", \"y\"");
    let pkgs = vec![DepLock {
        name: "zlib".to_string(),
        version: "1.3".to_string(),
        checksum: String::new(),
        source: "path+/p/zlib".to_string(),
    }];
    let text = lock_text("app", "0.1.0", &pkgs);
    assert_eq!(
        text,
        "[[package]]\nname = \"app\"\nversion = \"0.1.0\"\ndependencies = [\"zlib\"]\n\n[[package]]\nname = \"zlib\"\nversion = \"1.3\"\nsource = \"path+/p/zlib\"\nchecksum = \"\"\n\n"
    );
    assert_eq!(lock_text("app", "1", &[]), "[[package]]\nname = \"app\"\nversion = \"1\"\n\n");
}

#[test]
fn vcs_names() {
    assert_eq!(VcsKind::parse("Git"), Ok(VcsKind::Git));
    assert_eq!(VcsKind::parse("none"), Ok(VcsKind::NoVcs));
    assert_eq!(VcsKind::parse("svn"), Err("Unknown VCS: svn".to_string()));
}

#[test]
fn gen_dep_root_replaces_profile_and_skips_system() {
    let dep = table(vec![("path", s("libs/{profile}/foo"))]);
    assert_eq!(gen_dep_root(&dep, "release", "/p"), Some("/p/libs/release/foo".to_string()));
    let abs = table(vec![("path", s("/opt/foo"))]);
    assert_eq!(gen_dep_root(&abs, "debug", "/p"), Some("/opt/foo".to_string()));
    let system = table(vec![("path", s("libs/foo")), ("system", TomlValue::Boolean(true))]);
    assert_eq!(gen_dep_root(&system, "debug", "/p"), None);
    assert_eq!(gen_dep_root(&s("1.0.0"), "debug", "/p"), None);
    assert_eq!(gen_dep_root(&table(vec![("version", s("1"))]), "debug", "/p"), None);
}

#[test]
fn gen_dep_lists_and_fallbacks() {
    let mut r = ResolvedDeps { include_dirs: vec![], lib_dirs: vec![], libs: vec![], package_roots: vec![] };
    let explicit = table(vec![
        ("include", strs(&["inc/{profile}", "/abs/inc"])),
        ("lib", strs(&["out/{profile}"])),
        ("libs", strs(&["a", "b"])),
    ]);
    let probe = DirProbe { include_dir: true, lib: true, lib64: true, target_lib: true };
    push_gen_dep(&mut r, "foo", explicit.as_table().unwrap(), "debug", "/d", &probe);
    assert_eq!(r.include_dirs, vec!["/d/inc/debug".to_string(), "/abs/inc".to_string()]);
    assert_eq!(r.lib_dirs, vec!["/d/out/debug".to_string()]);
    assert_eq!(r.libs, vec!["a".to_string(), "b".to_string()]);

    let mut r2 = ResolvedDeps { include_dirs: vec![], lib_dirs: vec![], libs: vec![], package_roots: vec![] };
    let bare = table(vec![("path", s("x")), ("libs", strs(&[]))]);
    let probe2 = DirProbe { include_dir: false, lib: false, lib64: true, target_lib: true };
    push_gen_dep(&mut r2, "bar", bare.as_table().unwrap(), "debug", "/e", &probe2);
    assert!(r2.include_dirs.is_empty());
    assert_eq!(r2.lib_dirs, vec!["/e/lib64".to_string()]);
    assert_eq!(r2.libs, vec!["bar".to_string()]);

    let mut r3 = ResolvedDeps { include_dirs: vec![], lib_dirs: vec![], libs: vec![], package_roots: vec![] };
    push_gen_dep(&mut r3, "baz", bare.as_table().unwrap(), "debug", "/f", &probe);
    assert_eq!(r3.include_dirs, vec!["/f/include".to_string()]);
    assert_eq!(r3.lib_dirs, vec!["/f/lib".to_string()]);
}

#[test]
fn find_package_takes_the_first_named_entry() {
    let names = vec![None, Some("zlib".to_string()), Some("png".to_string()), Some("png".to_string())];
    assert_eq!(find_package(&names, "png"), Some(2));
    assert_eq!(find_package(&names, "zlib"), Some(1));
    assert_eq!(find_package(&names, "jpeg"), None);
    assert_eq!(find_package(&[], "png"), None);
}

#[test]
fn default_lib_dirs_include_packaged_library_output() {
    let mut paths = Vec::new();
    let probe = DirProbe { include_dir: false, lib: false, lib64: false, target_lib: true };
    dcr::deps::push_default_lib_dirs(&mut paths, "/tmp/dep", &probe);
    assert!(paths.iter().any(|p| p.replace('\\', "/").ends_with("target/lib")));
}
