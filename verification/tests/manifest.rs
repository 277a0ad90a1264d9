use dcr::build_config::{set_path, ConfigError};
use dcr::manifest::{
    check_manifest, default_manifest, default_manifest_text, dep_value_text_exec, manifest_text, ordered_table_keys,
    string_array_text_exec,
};
use dcr::value::{sort_dedup, table_get, table_insert, toml_eq, TomlValue};

fn st(x: &str) -> TomlValue {
    TomlValue::String(x.to_string())
}

fn table(entries: Vec<(&str, TomlValue)>) -> TomlValue {
    let mut t = Vec::new();
    for (k, v) in entries {
        table_insert(&mut t, k.to_string(), v);
    }
    TomlValue::Table(t)
}

fn invalid(r: Result<(), ConfigError>) -> String {
    match r {
        Err(ConfigError::Invalid(m)) => m,
        other => panic!("unexpected {:?}", other),
    }
}

#[test]
fn new_project_manifest_text() {
    let m = default_manifest("app");
    assert!(check_manifest(&m).is_ok());
    assert_eq!(
        manifest_text(&m).unwrap(),
        "[package]\nname = \"app\"\nversion = \"0.1.0\"\n\n[build]\nlanguage = \"c\"\nstandard = \"c11\"\ncompiler = \"clang\"\n\n[dependencies]\n"
    );
}

#[test]
fn manifest_checks_required_fields() {
    assert_eq!(invalid(check_manifest(&default_manifest("  "))), "package.name is empty");
    assert_eq!(invalid(check_manifest(&table(vec![]))), "missing [package]");
    let no_build = table(vec![("package", table(vec![("name", st("a")), ("version", st("1"))]))]);
    assert_eq!(invalid(check_manifest(&no_build)), "missing [build]");
    let no_version = table(vec![("package", table(vec![("name", st("a")), ("version", TomlValue::Integer(1))]))]);
    assert_eq!(invalid(check_manifest(&no_version)), "package.version is empty");
    let blank_compiler = table(vec![
        ("package", table(vec![("name", st("a")), ("version", st("1"))])),
        ("build", table(vec![("language", st("c")), ("standard", st("c11")), ("compiler", st(" "))])),
    ]);
    assert_eq!(invalid(check_manifest(&blank_compiler)), "build.compiler is empty");
}

#[test]
fn manifest_text_writes_settings_and_dependencies() {
    let m = table(vec![
        ("package", table(vec![("name", st("app")), ("version", st("1.0"))])),
        (
            "build",
            table(vec![
                ("language", st("c++")),
                ("standard", st("c++17")),
                ("compiler", st("g++")),
                ("target", st("linux")),
                ("cflags", TomlValue::Array(vec![st("-O2"), TomlValue::Boolean(true), st("-g")])),
            ]),
        ),
        (
            "dependencies",
            table(vec![
                ("zlib", table(vec![("path", st("../z")), ("system", TomlValue::Boolean(true)), ("include", TomlValue::Array(vec![st("inc"), TomlValue::Integer(1)]))])),
                ("fmt", st("1.0")),
                ("odd", TomlValue::Integer(3)),
            ]),
        ),
    ]);
    assert_eq!(
        manifest_text(&m).unwrap(),
        "[package]\nname = \"app\"\nversion = \"1.0\"\n\n[build]\nlanguage = \"c++\"\nstandard = \"c++17\"\ncompiler = \"g++\"\ntarget = \"linux\"\ncflags = [\"-O2\", \"-g\"]\n\n[dependencies]\nfmt = \"1.0\"\nodd = \"\"\nzlib = { path = \"../z\", system = true, include = [\"inc\"] }\n"
    );
    let missing_deps = table(vec![
        ("package", table(vec![("name", st("app"))])),
        ("build", table(vec![])),
    ]);
    assert!(matches!(manifest_text(&missing_deps), Err(ConfigError::Invalid(m)) if m == "missing [dependencies]"));
    assert!(matches!(manifest_text(&st("x")), Err(ConfigError::Invalid(m)) if m == "root is not a table"));
    assert_eq!(string_array_text_exec(&st("x")), "[]");
    assert_eq!(dep_value_text_exec(&table(vec![])), "{  }");
}

#[test]
fn setting_the_name_of_a_new_project() {
    let mut m = default_manifest("old");
    set_path(&mut m, &["package".to_string(), "name".to_string()], st("fresh")).unwrap();
    assert!(manifest_text(&m).unwrap().starts_with("[package]\nname = \"fresh\"\n"));
}

#[test]
fn default_manifest_text_for_new_configs() {
    assert_eq!(
        default_manifest_text("demo"),
        "[package]\nname = \"demo\"\nversion = \"0.1.0\"\ntype = \"none\"\ndescription = \"\"\nauthor = \"\"\nlicense = \"GPL-3.0-or-later\"\n\n[build]\nlanguage = \"c\"\nstandard = \"c11\"\ncompiler = \"clang\"\nkind = \"bin\"\n\n[dependencies]\n"
    );
    let parsed: toml::Value = toml::from_str(&default_manifest_text("demo")).unwrap();
    assert_eq!(parsed["build"]["kind"].as_str(), Some("bin"));
}

#[test]
fn dependency_keys_in_writing_order() {
    let t = match table(vec![
        ("zeta", st("1")),
        ("path", st("p")),
        ("alpha", st("a")),
        ("version", st("1")),
        ("features", TomlValue::Array(vec![])),
    ]) {
        TomlValue::Table(t) => t,
        _ => unreachable!(),
    };
    assert_eq!(ordered_table_keys(&t), vec!["version", "path", "features", "alpha", "zeta"]);
}

#[test]
fn tables_keep_keys_sorted_and_unique() {
    let mut t = Vec::new();
    table_insert(&mut t, "b".to_string(), st("1"));
    table_insert(&mut t, "a".to_string(), st("2"));
    table_insert(&mut t, "b".to_string(), st("3"));
    let keys: Vec<&str> = t.iter().map(|(k, _)| k.as_str()).collect();
    assert_eq!(keys, vec!["a", "b"]);
    assert!(toml_eq(table_get(&t, "b").unwrap(), &st("3")));
    assert!(table_get(&t, "c").is_none());
    let v = vec!["b".to_string(), "a".to_string(), "b".to_string()];
    assert_eq!(sort_dedup(&v), vec!["a", "b"]);
}
