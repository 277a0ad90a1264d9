use dcr::build_config::{
    BuildConfig, Config, ConfigError, DcrConfig, DependencyConfig, LanguageConfig, PackageConfig, WorkspaceMemberConfig,
};
use dcr::resolve::{
    get_config_value_raw, get_list_with_profile_and_target, get_string_with_profile_and_target,
    normalize_target_os, parse_string_array,
};
use dcr::validation::validate_package_name;
use dcr::value::TomlValue;

fn convert(v: &toml::Value) -> TomlValue {
    match v {
        toml::Value::String(s) => TomlValue::String(s.clone()),
        toml::Value::Integer(i) => TomlValue::Integer(*i),
        toml::Value::Float(f) => TomlValue::Float(f.to_bits()),
        toml::Value::Boolean(b) => TomlValue::Boolean(*b),
        toml::Value::Datetime(d) => TomlValue::Datetime(d.to_string()),
        toml::Value::Array(a) => TomlValue::Array(a.iter().map(convert).collect()),
        toml::Value::Table(t) => {
            let mut out = Vec::new();
            for (k, v) in t {
                dcr::value::table_insert(&mut out, k.clone(), convert(v));
            }
            TomlValue::Table(out)
        }
    }
}

fn opt_string(t: &toml::Table, key: &str) -> Result<Option<String>, String> {
    match t.get(key) {
        None => Ok(None),
        Some(toml::Value::String(s)) => Ok(Some(s.clone())),
        Some(_) => Err(format!("invalid type for `{key}`")),
    }
}

fn string_list(t: &toml::Table, key: &str) -> Result<Vec<String>, String> {
    match t.get(key) {
        None => Ok(Vec::new()),
        Some(toml::Value::Array(a)) => a
            .iter()
            .map(|v| v.as_str().map(|s| s.to_string()).ok_or_else(|| format!("invalid item in `{key}`")))
            .collect(),
        Some(_) => Err(format!("invalid type for `{key}`")),
    }
}

fn typed(v: &toml::Value) -> Result<DcrConfig, String> {
    let root = v.as_table().ok_or("root")?;
    let package = match root.get("package") {
        None => None,
        Some(p) => {
            let p = p.as_table().ok_or("package")?;
            Some(PackageConfig {
                name: opt_string(p, "name")?.ok_or("missing field `name`")?,
                version: opt_string(p, "version")?.ok_or("missing field `version`")?,
                pkg_type: opt_string(p, "type")?,
            })
        }
    };
    let build = match root.get("build") {
        None => None,
        Some(b) => {
            let b = b.as_table().ok_or("build")?;
            let language = match b.get("language") {
                None => LanguageConfig::One("c".to_string()),
                Some(toml::Value::String(s)) => LanguageConfig::One(s.clone()),
                Some(toml::Value::Array(_)) => LanguageConfig::Many(string_list(b, "language")?),
                Some(_) => return Err("language".to_string()),
            };
            Some(BuildConfig {
                language,
                standard: opt_string(b, "standard")?,
                cxx_standard: opt_string(b, "cxx_standard")?,
                compiler: opt_string(b, "compiler")?.unwrap_or_else(|| "clang".to_string()),
                kind: opt_string(b, "kind")?,
                target: opt_string(b, "target")?,
                out_dir: opt_string(b, "out_dir")?,
                platform: opt_string(b, "platform")?,
                cflags: string_list(b, "cflags")?,
                ldflags: string_list(b, "ldflags")?,
                exclude: string_list(b, "exclude")?,
                includes: string_list(b, "include")?,
                roots: string_list(b, "roots")?,
                clean: string_list(b, "clean")?,
                src_disable: b.get("src_disable").and_then(|v| v.as_bool()),
                workspace_only: b.get("workspace_only").and_then(|v| v.as_bool()).unwrap_or(false),
                qt: b.get("qt").and_then(|v| v.as_bool()),
            })
        }
    };
    let mut workspace = Vec::new();
    if let Some(w) = root.get("workspace").and_then(|v| v.as_table()) {
        for (name, m) in w {
            let m = m.as_table().ok_or("member")?;
            workspace.push((
                name.clone(),
                WorkspaceMemberConfig {
                    path: opt_string(m, "path")?.ok_or("missing field `path`")?,
                    deps: string_list(m, "deps")?,
                    main: m.get("main").and_then(|v| v.as_bool()),
                },
            ));
        }
    }
    let mut dependencies = Vec::new();
    if let Some(d) = root.get("dependencies").and_then(|v| v.as_table()) {
        for (name, v) in d {
            let dep = match v {
                toml::Value::String(s) => DependencyConfig::Version(s.clone()),
                other => match convert(other) {
                    TomlValue::Table(t) => DependencyConfig::Table(t),
                    _ => return Err(format!("invalid dependency `{name}`")),
                },
            };
            dependencies.push((name.clone(), dep));
        }
    }
    Ok(DcrConfig { package, build, dependencies, toolchain: None, workspace, archive: None })
}

fn open_text(text: &str) -> Result<Config, String> {
    let v: toml::Value = toml::from_str(text).map_err(|e| e.to_string())?;
    let t = typed(&v)?;
    Config::from_parts("dcr.toml".to_string(), convert(&v), t).map_err(|e| e.message())
}

fn minimal_valid_toml() -> &'static str {
    "[package]\nname = \"test\"\nversion = \"0.1.0\"\n\n[build]\nlanguage = \"c\"\nstandard = \"c11\"\ncompiler = \"clang\"\nkind = \"bin\"\n\n[dependencies]\n"
}

const VALID_KINDS: &[&str] = &["bin", "staticlib", "sharedlib", "efi", "elf", "none", "custom", "flat-bin"];

#[test]
fn open_valid_toml() {
    assert!(open_text(minimal_valid_toml()).is_ok(), "should open valid toml");
}

#[test]
fn exposes_typed_config() {
    let config = open_text(
        "[package]\nname = \"typed\"\nversion = \"1.2.3\"\ntype = \"lib\"\n\n[build]\nlanguage = [\"c\", \"c++\"]\nstandard = \"c11\"\ncompiler = \"clang\"\nkind = \"staticlib\"\ncflags = [\"-Wall\"]\n\n[dependencies]\nfoo = \"1.0.0\"\n",
    )
    .unwrap();
    assert_eq!(config.package().unwrap().name, "typed");
    assert_eq!(config.typed().package.as_ref().unwrap().version, "1.2.3");
    assert_eq!(config.build_config().unwrap().compiler, "clang");
    assert_eq!(config.build_config().unwrap().cflags, ["-Wall"]);
    assert!(config.typed().dependencies.iter().any(|(k, _)| k == "foo"));
}

#[test]
fn open_invalid_toml_syntax() {
    let config = open_text("this is not [valid toml !!!");
    assert!(config.is_err(), "should fail on invalid TOML syntax");
}

#[test]
fn validate_wrong_field_type_fails() {
    let result = open_text(
        "[package]\nname = \"test\"\nversion = \"0.1.0\"\n\n[build]\nlanguage = \"c\"\nstandard = \"c11\"\ncompiler = [\"clang\"]\nkind = \"bin\"\n\n[dependencies]\n",
    );
    assert!(result.is_err(), "typed config should reject wrong field types");
}

#[test]
fn validate_missing_package_fails() {
    let result = open_text("[build]\nlanguage = \"c\"\nstandard = \"c11\"\ncompiler = \"clang\"\n\n[dependencies]\n");
    assert!(result.is_err(), "missing [package] should fail validation");
    assert_eq!(result.err().unwrap(), "Invalid config: missing [package] section (required)");
}

#[test]
fn validate_missing_build_fails() {
    let result = open_text("[package]\nname = \"test\"\nversion = \"0.1.0\"\n\n[dependencies]\n");
    assert!(result.is_err(), "missing [build] should fail validation");
}

#[test]
fn validate_invalid_package_names_fail() {
    for name in ["../evil", "bad/name", "bad name", "", " name", "name ", "a.b"] {
        let content = format!(
            "[package]\nname = \"{name}\"\nversion = \"0.1.0\"\n\n[build]\nlanguage = \"c\"\nstandard = \"c11\"\ncompiler = \"clang\"\nkind = \"bin\"\n\n[dependencies]\n"
        );
        let result = open_text(&content);
        assert!(result.is_err(), "package name `{name}` should fail");
    }
}

#[test]
fn package_name_messages() {
    let msg = |n: &str| match validate_package_name(n) {
        Err(ConfigError::Invalid(m)) => m,
        _ => String::new(),
    };
    assert_eq!(msg(" x"), "package.name must not contain leading or trailing whitespace");
    assert_eq!(msg("a..b"), "package.name is invalid");
    assert_eq!(msg("a.b"), "package.name must contain only ASCII letters, digits, '_' or '-'");
    assert!(validate_package_name("good_name-2").is_ok());
}

#[test]
fn validate_empty_language_fails() {
    let result = open_text("[package]\nname = \"test\"\nversion = \"0.1.0\"\n\n[build]\nlanguage = \"\"\nstandard = \"c11\"\ncompiler = \"clang\"\n\n[dependencies]\n");
    assert!(result.is_err(), "empty language should fail validation");
}

#[test]
fn validate_language_array() {
    let result = open_text("[package]\nname = \"test\"\nversion = \"0.1.0\"\n\n[build]\nlanguage = [\"c\", \"c++\", \"asm\"]\nstandard = \"c11\"\ncompiler = \"clang\"\n\n[dependencies]\n");
    assert!(result.is_ok(), "language array should be valid");
}

#[test]
fn validate_language_array_empty_fails() {
    let result = open_text("[package]\nname = \"test\"\nversion = \"0.1.0\"\n\n[build]\nlanguage = []\nstandard = \"c11\"\ncompiler = \"clang\"\n\n[dependencies]\n");
    assert!(result.is_err(), "empty language array should fail");
}

#[test]
fn validate_unknown_kind_fails() {
    let result = open_text("[package]\nname = \"test\"\nversion = \"0.1.0\"\n\n[build]\nlanguage = \"c\"\nstandard = \"c11\"\ncompiler = \"clang\"\nkind = \"exe\"\n\n[dependencies]\n");
    assert!(result.is_err(), "unknown kind 'exe' should fail validation");
}

#[test]
fn validate_valid_kinds() {
    for &kind in VALID_KINDS {
        let toml = format!(
            "[package]\nname = \"test\"\nversion = \"0.1.0\"\n\n[build]\nlanguage = \"c\"\nstandard = \"c11\"\ncompiler = \"clang\"\nkind = \"{kind}\"\n\n[dependencies]\n"
        );
        assert!(open_text(&toml).is_ok(), "kind '{kind}' should be valid");
    }
}

#[test]
fn get_values() {
    let config = open_text(minimal_valid_toml()).unwrap();
    assert_eq!(config.get("package.name").and_then(|v| v.as_str()), Some("test"));
    assert_eq!(config.get("build.language").and_then(|v| v.as_str()), Some("c"));
    assert_eq!(config.get("build.kind").and_then(|v| v.as_str()), Some("bin"));
    assert!(config.get("nonexistent.key").is_none());
}

#[test]
fn set_and_read_back() {
    let mut config = open_text(minimal_valid_toml()).unwrap();
    config.set_raw("package.name", TomlValue::String("newname".to_string())).unwrap();
    assert_eq!(config.get("package.name").and_then(|v| v.as_str()), Some("newname"));
    assert_eq!(config.get("build.kind").and_then(|v| v.as_str()), Some("bin"));
}

#[test]
fn set_creates_tables_and_refuses_scalars() {
    let mut config = open_text(minimal_valid_toml()).unwrap();
    config.set_raw("dependencies.zlib.path", TomlValue::String("../zlib".to_string())).unwrap();
    assert_eq!(config.get("dependencies.zlib.path").and_then(|v| v.as_str()), Some("../zlib"));
    let r = config.set_raw("package.name.inner", TomlValue::Boolean(true));
    match r {
        Err(ConfigError::Invalid(m)) => assert_eq!(m, "'name' is not a table"),
        _ => panic!("expected an error"),
    }
    assert_eq!(config.get("package.name").and_then(|v| v.as_str()), Some("test"));
}

#[test]
fn validate_workspace_empty_path_fails() {
    let v: toml::Value = toml::from_str("[package]\nname = \"test\"\nversion = \"0.1.0\"\n\n[build]\nlanguage = \"c\"\nstandard = \"c11\"\ncompiler = \"clang\"\n\n[workspace]\n[workspace.member1]\npath = \"\"\n\n[dependencies]\n").unwrap();
    let result = Config::from_parts("dcr.toml".to_string(), convert(&v), typed(&v).unwrap());
    match result {
        Err(ConfigError::Invalid(m)) => assert_eq!(m, "workspace.member1.path is empty"),
        _ => panic!("workspace member with empty path should fail"),
    }
}

#[test]
fn check_returns_bool() {
    let config = open_text(minimal_valid_toml()).unwrap();
    assert!(config.check(), "valid config should return true");
}

#[test]
fn profile_sections_are_checked() {
    let bad = format!("{}[build.release]\ncflags = \"-O2\"\n", minimal_valid_toml().replace("[dependencies]\n", ""));
    assert_eq!(open_text(&bad).err().unwrap(), "Invalid config: build.release.cflags must be an array of strings");
    let steps = format!("{}[[build.debug.steps]]\nname = \"gen\"\nin = \"a\"\nout = \"b\"\n", minimal_valid_toml().replace("[dependencies]\n", ""));
    assert_eq!(open_text(&steps).err().unwrap(), "Invalid config: build.debug.steps missing cmd");
}

#[test]
fn test_normalize_target_os() {
    assert_eq!(normalize_target_os("linux"), "x86_64-unknown-linux-gnu");
    assert_eq!(normalize_target_os("macos"), "x86_64-apple-darwin");
    assert_eq!(normalize_target_os("windows"), "x86_64-pc-windows-msvc");
    assert_eq!(normalize_target_os("x86_64-unknown-linux-gnu"), "x86_64-unknown-linux-gnu");
    assert_eq!(normalize_target_os("unknown"), "unknown");
}

#[test]
fn settings_follow_override_order() {
    let text = "[package]\nname = \"t\"\nversion = \"1\"\n[build]\nlanguage = \"c\"\ncompiler = \"clang\"\ncflags = [\"-Wall\"]\n[build.release]\ncompiler = \"gcc\"\ncflags = [\"-O2\"]\n[build.x86_64-unknown-linux-gnu]\ncflags = [\"-m64\"]\n";
    let config = open_text(text).unwrap();
    assert_eq!(get_string_with_profile_and_target(&config, "compiler", "release", None), "gcc");
    assert_eq!(get_string_with_profile_and_target(&config, "compiler", "debug", None), "clang");
    let raw = get_config_value_raw(&config, "build", "cflags", "release", Some("linux")).unwrap();
    assert_eq!(parse_string_array(&raw, "x").unwrap(), vec!["-m64"]);
    assert_eq!(
        get_list_with_profile_and_target(&config, "cflags", "release", None).unwrap(),
        vec!["-Wall", "-O2"]
    );
    assert_eq!(get_list_with_profile_and_target(&config, "cflags", "debug", None).unwrap(), vec!["-Wall"]);
}

#[test]
fn member_inherits_unset_build_fields_only() {
    let parent = open_text(
        "[package]\nname = \"ws\"\nversion = \"0.1.0\"\n\n[build]\nlanguage = \"c\"\nstandard = \"c17\"\ncompiler = \"gcc\"\ncflags = [\"-Wall\"]\nkind = \"staticlib\"\n",
    )
    .unwrap();
    let mut member = open_text(
        "[package]\nname = \"m\"\nversion = \"0.1.0\"\n\n[build]\nlanguage = \"c\"\nstandard = \"c11\"\ncompiler = \"clang\"\nkind = \"\"\n",
    )
    .unwrap();
    assert!(member.merge_parent(&parent));
    assert!(matches!(member.get("build.standard"), Some(TomlValue::String(s)) if s == "c11"));
    assert!(matches!(member.get("build.compiler"), Some(TomlValue::String(s)) if s == "clang"));
    assert!(matches!(member.get("build.kind"), Some(TomlValue::String(s)) if s == "staticlib"));
    match member.get("build.cflags") {
        Some(TomlValue::Array(a)) => assert!(matches!(&a[..], [TomlValue::String(s)] if s == "-Wall")),
        other => panic!("cflags not inherited: {other:?}"),
    }
    assert!(matches!(parent.get("build.kind"), Some(TomlValue::String(s)) if s == "staticlib"));
    let mut empty_list = open_text(
        "[package]\nname = \"m\"\nversion = \"0.1.0\"\n\n[build]\nlanguage = \"c\"\nstandard = \"c17\"\ncompiler = \"gcc\"\ncflags = []\nkind = \"bin\"\n",
    )
    .unwrap();
    assert!(empty_list.merge_parent(&parent));
    assert!(matches!(empty_list.get("build.kind"), Some(TomlValue::String(s)) if s == "bin"));
    match empty_list.get("build.cflags") {
        Some(TomlValue::Array(a)) => assert_eq!(a.len(), 1),
        other => panic!("empty cflags not filled: {other:?}"),
    }
    let mut full = open_text(
        "[package]\nname = \"m\"\nversion = \"0.1.0\"\n\n[build]\nlanguage = \"c\"\nstandard = \"c17\"\ncompiler = \"gcc\"\ncflags = [\"-O1\"]\nkind = \"bin\"\n",
    )
    .unwrap();
    assert!(!full.merge_parent(&parent));
}

#[test]
fn save_preserves_untyped_sections() {
    let text = "# top comment\n[package]\nname = \"test\"\nversion = \"0.1.0\"\n\n[build]\nlanguage = \"c\"\nstandard = \"c11\"\ncompiler = \"clang\"\nkind = \"elf\"\nfilename = \"KERNEL\"\nextension = \"ELF\"\ninherit = false\ninclude = [\"src/include\"]\n\n[[build.post_steps]]\nname = \"iso\"\ncmd = \"grub-mkrescue\"\n\n[run]\ncmd = \"qemu-system-aarch64 -kernel KERNEL\"\n\n[dependencies]\n";
    let mut config = open_text(text).unwrap();
    let mut dep = Vec::new();
    dcr::value::table_insert(&mut dep, "path".to_string(), TomlValue::String("../zlib".to_string()));
    let edited = dcr::manifest_edit::edit_text(text, "dependencies.zlib", &TomlValue::Table(dep)).unwrap();
    let reparsed = open_text(&edited).unwrap();
    let mut dep2 = Vec::new();
    dcr::value::table_insert(&mut dep2, "path".to_string(), TomlValue::String("../zlib".to_string()));
    config.set_value("dependencies.zlib", TomlValue::Table(dep2), typed(&toml::from_str(&edited).unwrap()).unwrap()).unwrap();
    assert!(edited.starts_with("# top comment\n"));
    for (cfg, label) in [(&config, "in memory"), (&reparsed, "reloaded")] {
        assert!(matches!(cfg.get("build.filename"), Some(TomlValue::String(s)) if s == "KERNEL"), "{label}");
        assert!(matches!(cfg.get("build.extension"), Some(TomlValue::String(s)) if s == "ELF"));
        assert!(matches!(cfg.get("build.inherit"), Some(TomlValue::Boolean(false))));
        assert!(matches!(cfg.get("build.include"), Some(TomlValue::Array(_))), "build.include array must survive save");
        assert!(matches!(cfg.get("run.cmd"), Some(TomlValue::String(s)) if s == "qemu-system-aarch64 -kernel KERNEL"));
        assert!(cfg.get("build.post_steps").is_some(), "[[build.post_steps]] must survive save");
        assert!(matches!(cfg.get("dependencies.zlib.path"), Some(TomlValue::String(s)) if s == "../zlib"));
    }
}

#[test]
fn a_change_that_breaks_a_rule_is_undone() {
    let mut config = open_text(minimal_valid_toml()).unwrap();
    let edited = dcr::manifest_edit::edit_text(minimal_valid_toml(), "build.kind", &TomlValue::String("weird".to_string())).unwrap();
    let t = typed(&toml::from_str(&edited).unwrap()).unwrap();
    let r = config.set_value("build.kind", TomlValue::String("weird".to_string()), t);
    assert!(matches!(r, Err(ConfigError::Invalid(_))));
    assert!(matches!(config.get("build.kind"), Some(TomlValue::String(s)) if s == "bin"));
    let scalar = dcr::manifest_edit::edit_text(minimal_valid_toml(), "package.name.inner", &TomlValue::Integer(1));
    assert!(matches!(scalar, Err(ConfigError::Invalid(m)) if m == "'name' is not a table"));
    assert!(dcr::manifest_edit::check_document("this is not [valid toml !!!").is_err());
    assert!(dcr::manifest_edit::check_document(minimal_valid_toml()).is_ok());
    let float = dcr::manifest_edit::edit_text(minimal_valid_toml(), "build.ratio", &TomlValue::Float(0));
    assert!(float.is_err());
}

#[test]
fn written_dependency_tables_put_known_keys_first() {
    let mut dep = Vec::new();
    dcr::value::table_insert(&mut dep, "path".to_string(), TomlValue::String("../zlib".to_string()));
    dcr::value::table_insert(&mut dep, "libs".to_string(), TomlValue::Array(vec![TomlValue::String("z".to_string())]));
    dcr::value::table_insert(&mut dep, "version".to_string(), TomlValue::String("1.3".to_string()));
    let edited = dcr::manifest_edit::edit_text(minimal_valid_toml(), "dependencies.zlib", &TomlValue::Table(dep)).unwrap();
    let line = edited.lines().find(|l| l.starts_with("zlib")).unwrap();
    let (v, p, l) = (line.find("version").unwrap(), line.find("path").unwrap(), line.find("libs").unwrap());
    assert!(v < p && p < l, "{line}");
    let inline = dcr::manifest_edit::edit_text(&edited, "dependencies.zlib.tag", &TomlValue::String("x".to_string()));
    assert!(matches!(inline, Err(ConfigError::Invalid(m)) if m == "'zlib' is not a table"));
    let fresh = dcr::manifest_edit::edit_text(minimal_valid_toml(), "tools.lint.level", &TomlValue::Integer(2)).unwrap();
    assert!(fresh.contains("[tools.lint]") && fresh.contains("level = 2"), "{fresh}");
}

#[test]
fn project_info_reads_settings_and_probes() {
    let text = "[package]\nname = \"demo\"\nversion = \"1.0.0\"\n\n[build]\nlanguage = \"c++\"\nstandard = \"c11\"\ncompiler = \"clang\"\nkind = \"staticlib\"\ninclude = [\"inc\"]\n\n[toolchain]\ncxx = \"g++-13\"\nmoc = \"moc6\"\n\n[dependencies]\n";
    let config = open_text(text).unwrap();
    let host = dcr::platform::Host { os: dcr::platform::HostOs::Linux, triple: "x86_64-unknown-linux-gnu".to_string() };
    let probes = dcr::cli::project_info::GenProbes {
        target_dir: "/p/target/debug".to_string(),
        sources: vec!["src/a.cpp".to_string()],
        deps: dcr::deps::ResolvedDeps { include_dirs: vec!["/d/include".to_string()], lib_dirs: vec!["libs".to_string()], libs: vec!["d".to_string()], package_roots: vec![] },
        existing_includes: vec!["/p/inc".to_string()],
        cflags: vec!["-Wall".to_string()],
        ldflags: vec![],
        source_roots: vec!["/p/src".to_string()],
        lldb_found: false,
        gdb_found: true,
        moc_found: None,
        uic_found: None,
        rcc_found: None,
        workspace_root: None,
    };
    let info = dcr::cli::project_info::project_info(&config, "debug", "/p", &host, probes);
    assert_eq!((info.name.as_str(), info.version.as_str(), info.language.as_str()), ("demo", "1.0.0", "c++"));
    assert_eq!(info.compiler, "g++-13");
    assert_eq!(info.kind, "staticlib");
    assert_eq!(info.sources, vec!["/p/src/a.cpp".to_string()]);
    assert_eq!(info.include_dirs, vec!["/d/include".to_string(), "/p/inc".to_string()]);
    assert_eq!(info.lib_dirs, vec!["/p/libs".to_string()]);
    assert_eq!(info.include_globs, vec!["inc".to_string()]);
    assert_eq!(info.debugger, "gdb");
    assert_eq!(info.moc.as_deref(), Some("moc6"));
    assert_eq!(info.uic, None);
    assert_eq!(info.artifact_path.as_deref(), Some("/p/target/debug/libdemo.a"));
    assert_eq!(info.target_dir.as_deref(), Some("/p/target/debug"));
}
