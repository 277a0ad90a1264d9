use dcr::steps::{
    build_step_flags, check_step_inputs, get_build_steps_from_value, is_msvc_compiler, missing_expectation,
    quote_step_arg, should_run_step, step_command, with_stem, BuildStep, StepTools,
};
use dcr::value::{table_insert, TomlValue};

fn s(v: &[&str]) -> Vec<String> {
    v.iter().map(|x| x.to_string()).collect()
}

fn st(x: &str) -> TomlValue {
    TomlValue::String(x.to_string())
}

fn step_table(name: &str, input: &str, output: &str, cmd: &str) -> TomlValue {
    let mut t = Vec::new();
    table_insert(&mut t, "name".to_string(), st(name));
    table_insert(&mut t, "in".to_string(), st(input));
    table_insert(&mut t, "out".to_string(), st(output));
    table_insert(&mut t, "cmd".to_string(), st(cmd));
    TomlValue::Table(t)
}

#[test]
fn steps_are_read_from_arrays_of_tables() {
    let v = TomlValue::Array(vec![step_table(" gen ", "a/*.ui", "b/{stem}.h", "uic {in} -o {out}")]);
    let steps = get_build_steps_from_value(&v, "build.steps").unwrap();
    assert_eq!(steps.len(), 1);
    assert_eq!(steps[0].name, "gen");
    assert_eq!(steps[0].input, "a/*.ui");
    assert_eq!(steps[0].output, "b/{stem}.h");
    assert_eq!(steps[0].cmd, "uic {in} -o {out}");
}

#[test]
fn malformed_steps_are_refused() {
    assert_eq!(
        get_build_steps_from_value(&st("x"), "build.steps").err(),
        Some("build.steps must be an array".to_string())
    );
    assert_eq!(
        get_build_steps_from_value(&TomlValue::Array(vec![st("x")]), "build.steps").err(),
        Some("build.steps entries must be tables".to_string())
    );
    let v = TomlValue::Array(vec![step_table("gen", "a", "  ", "c")]);
    assert_eq!(
        get_build_steps_from_value(&v, "build.post_steps").err(),
        Some("build.post_steps entries must include name, in, out, cmd".to_string())
    );
}

#[test]
fn step_flags_are_sorted_unique_and_quoted() {
    assert_eq!(build_step_flags(&s(&["-Iinc", "-DX=1", "-O2", "-Iinc"]), &s(&["/usr/inc"]), "gcc"), "-DX=1 -I/usr/inc -Iinc");
    assert_eq!(
        build_step_flags(&s(&["-Iinc", "-DX=1"]), &s(&["/usr/inc"]), "cl"),
        "-DX=1 -I/usr/inc -Iinc /DX=1 /I/usr/inc"
    );
    assert_eq!(build_step_flags(&s(&["-DNAME=a b"]), &[], "gcc"), "\"-DNAME=a b\"");
    assert_eq!(build_step_flags(&[], &[], "gcc"), "");
    assert_eq!(quote_step_arg("a\"b".to_string()), "\"a\\\"b\"");
    assert_eq!(quote_step_arg("plain".to_string()), "plain");
    assert!(is_msvc_compiler("CL.EXE"));
    assert!(is_msvc_compiler("clang-cl"));
    assert!(!is_msvc_compiler("clang"));
}

#[test]
fn step_inputs_and_commands() {
    let step = BuildStep {
        name: "gen".to_string(),
        input: "a/*.ui".to_string(),
        output: "x.o".to_string(),
        cmd: "c".to_string(),
    };
    assert_eq!(
        check_step_inputs(&step, 2),
        Err("build.steps 'gen' output must include {stem} for multiple inputs".to_string())
    );
    assert!(check_step_inputs(&step, 1).is_ok());
    assert_eq!(with_stem("out/{stem}.o", "main"), "out/main.o");
    let tools = StepTools { uic: "uic".to_string(), moc: "moc".to_string(), rcc: "rcc".to_string() };
    assert_eq!(
        step_command("{uic} {in} -o {out} {cflags} {stem} {moc} {rcc}", "a.ui", "b.h", &tools, "-Iinc", "a"),
        "uic a.ui -o b.h -Iinc a moc rcc"
    );
    assert!(should_run_step(Some(5), Some(3)));
    assert!(!should_run_step(Some(3), Some(3)));
    assert!(should_run_step(None, Some(1)));
    assert!(should_run_step(Some(1), None));
    assert_eq!(missing_expectation("out/*.bin"), "Expected artifact not found: out/*.bin");
}

fn version_1_2_3() -> dcr::cli::run::VersionInfo {
    dcr::cli::run::VersionInfo {
        full: "1.2.3-rc1".to_string(),
        major: "1".to_string(),
        minor: "2".to_string(),
        patch: "3".to_string(),
        suffix: "rc1".to_string(),
        suffix_dash: "-rc1".to_string(),
    }
}

#[test]
fn step_values_fill_profile_version_and_stem() {
    let info = version_1_2_3();
    assert_eq!(
        dcr::steps::expand_step_value("gen/{profile}/{stem}-{version_major}.{version_minor}.h", "ui_main", "release", &info),
        "gen/release/ui_main-1.2.h"
    );
    let tools = StepTools { uic: "uic6".to_string(), moc: "moc".to_string(), rcc: "rcc".to_string() };
    assert_eq!(
        dcr::steps::substitute_step_cmd("{uic} {in} -o {out} # {version}{version_suffix_dash}", "a.ui", "b.h", &tools, "", "a", "debug", &info),
        "uic6 a.ui -o b.h # 1.2.3-rc1-rc1"
    );
}
