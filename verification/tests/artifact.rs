use dcr::build::artifact::{absolute_artifact_path, resolve_artifact_path};
use dcr::platform::{self as platform, Host, HostOs};

fn linux() -> Host {
    Host { os: HostOs::Linux, triple: "x86_64-unknown-linux-gnu".to_string() }
}

#[test]
fn resolve_bin_default() {
    let host = linux();
    let p = resolve_artifact_path(&host, "bin", "debug", "hello", None, None, None).unwrap();
    assert_eq!(p, platform::bin_path(&host, "debug", "hello", None));
}

#[test]
fn resolve_bin_custom_target_dir() {
    let host = linux();
    let p = resolve_artifact_path(&host, "bin", "debug", "hello", Some("/out"), None, None).unwrap();
    assert_eq!(p, "/out/hello");
}

#[test]
fn resolve_staticlib() {
    let host = linux();
    let p = resolve_artifact_path(&host, "staticlib", "release", "mylib", Some("dist"), None, None).unwrap();
    assert_eq!(p, "dist/libmylib.a");
    let win = Host { os: HostOs::Windows, triple: "x86_64-pc-windows-msvc".to_string() };
    let p = resolve_artifact_path(&win, "staticlib", "release", "mylib", Some("dist"), None, None).unwrap();
    assert_eq!(p, "dist/mylib.lib");
}

#[test]
fn resolve_with_filename_ext() {
    let host = linux();
    let p = resolve_artifact_path(&host, "bin", "debug", "pkg", Some("/out"), Some("KERNEL"), Some("ELF")).unwrap();
    assert_eq!(p, "/out/KERNEL.ELF");
}

#[test]
fn resolve_none_kind() {
    let host = linux();
    assert!(resolve_artifact_path(&host, "none", "debug", "x", None, None, None).is_none());
}

#[test]
fn resolve_flat_bin_defaults_to_bin_extension() {
    let host = linux();
    let p = resolve_artifact_path(&host, "flat-bin", "debug", "boot", None, None, None).unwrap();
    assert_eq!(p, "./target/debug/boot.bin");
}

#[test]
fn absolute_artifact_path_joins_relative() {
    assert_eq!(absolute_artifact_path("/proj", "./target/debug/x"), "/proj/target/debug/x");
    assert_eq!(absolute_artifact_path("/proj", "/abs/x"), "/abs/x");
}
