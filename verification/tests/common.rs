use dcr::build::common::{d_file_cuts_exec, is_excluded, normalize_source_path, object_path, parse_d_file};

#[test]
fn object_path_basic() {
    let result = object_path("target/debug/obj", "./src/main.c", "o");
    assert_eq!(result, "target/debug/obj/main.o");
}

#[test]
fn object_path_nested() {
    let result = object_path("target/debug/obj", "./src/core/utils.c", "o");
    assert_eq!(result, "target/debug/obj/core/utils.o");
}

#[test]
fn object_path_no_prefix() {
    let result = object_path("target/debug/obj", "src/main.c", "o");
    assert_eq!(result, "target/debug/obj/main.o");
}

#[test]
fn object_path_msvc_ext() {
    let result = object_path("target/debug/obj", "./src/main.c", "obj");
    assert_eq!(result, "target/debug/obj/main.obj");
}

#[test]
fn object_path_drops_leading_dots_of_extension() {
    assert_eq!(object_path("obj", "lib/a.cpp", ".o"), "obj/lib/a.o");
    assert_eq!(object_path("obj", "srcx/a.c", "o"), "obj/srcx/a.o");
}

#[test]
fn is_excluded_match() {
    let excluded = vec!["/project/src/vendor".to_string()];
    assert!(is_excluded("/project/src/vendor", &excluded));
    assert!(is_excluded("/project/src/vendor/lib.c", &excluded));
}

#[test]
fn is_excluded_no_match() {
    let excluded = vec!["/project/src/vendor".to_string()];
    assert!(!is_excluded("/project/src/main.c", &excluded));
    assert!(!is_excluded("/other/vendor", &excluded));
}

#[test]
fn is_excluded_compares_whole_components() {
    let excluded = vec!["/project/src/vend".to_string()];
    assert!(!is_excluded("/project/src/vendor/lib.c", &excluded));
    let none: Vec<String> = Vec::new();
    assert!(!is_excluded("/project/src/vendor/lib.c", &none));
}

#[test]
fn normalize_relative_path() {
    let result = normalize_source_path("./src/main.c", "/home/me/proj");
    assert_eq!(result, "./src/main.c");
}

#[test]
fn normalize_absolute_path_inside_cwd() {
    assert_eq!(normalize_source_path("/home/me/proj/src/a.c", "/home/me/proj"), "./src/a.c");
    assert_eq!(normalize_source_path("/elsewhere/a.c", "/home/me/proj"), "/elsewhere/a.c");
}

#[test]
fn parse_d_file_gcc_format() {
    let content = "target/obj/main.o: src/main.c src/utils.h \\\n src/core/types.h";
    let deps = parse_d_file(content);
    assert_eq!(deps, vec!["src/main.c", "src/utils.h", "src/core/types.h"]);
}

#[test]
fn parse_d_file_msvc_format() {
    let content = "target/obj/main.obj: \\\n  C:/sdk/include/windows.h \\\n  src/main.c";
    let deps = parse_d_file(content);
    assert_eq!(deps, vec!["C:/sdk/include/windows.h", "src/main.c"]);
}

#[test]
fn parse_d_file_escaped_space_and_drive_target() {
    let content = "C:/obj/a.o: my\\ file.c b.h";
    assert!(d_file_cuts_exec(content));
    assert_eq!(parse_d_file(content), vec!["my file.c", "b.h"]);
    assert_eq!(parse_d_file("no colon here"), vec!["no", "colon", "here"]);
}
