use dcr::platform::linux::{bin_path, lib_path, shared_lib_path};
use dcr::platform::path_util::{default_bin_rel, default_lib_rel, join_dir, with_exe_suffix};
use dcr::platform::{self as platform, Host, HostOs};

const TRIPLE: &str = "x86_64-unknown-linux-gnu";

fn host_triple() -> String {
    TRIPLE.to_string()
}

#[test]
fn bin_path_default() {
    let expected = default_bin_rel("debug", "hello", Some(&host_triple()));
    assert_eq!(bin_path("debug", "hello", None, TRIPLE), expected);
}

#[test]
fn bin_path_release() {
    let expected = default_bin_rel("release", "hello", Some(&host_triple()));
    assert_eq!(bin_path("release", "hello", None, TRIPLE), expected);
}

#[test]
fn bin_path_custom_target() {
    assert_eq!(bin_path("debug", "hello", Some("out"), TRIPLE), join_dir("out", "hello"));
}

#[test]
fn bin_path_custom_target_trailing_slash() {
    assert_eq!(bin_path("debug", "hello", Some("out/"), TRIPLE), join_dir("out/", "hello"));
}

#[test]
fn lib_path_default() {
    let expected = default_lib_rel("debug", "libmylib.a", Some(&host_triple()));
    assert_eq!(lib_path("debug", "mylib", None, TRIPLE), expected);
}

#[test]
fn lib_path_custom_target() {
    assert_eq!(lib_path("debug", "mylib", Some("out"), TRIPLE), join_dir("out", "libmylib.a"));
}

#[test]
fn shared_lib_path_default() {
    let expected = default_lib_rel("debug", "libmylib.so", Some(&host_triple()));
    assert_eq!(shared_lib_path("debug", "mylib", None, TRIPLE), expected);
}

#[test]
fn shared_lib_path_custom_target() {
    assert_eq!(
        shared_lib_path("release", "mylib", Some("dist"), TRIPLE),
        join_dir("dist", "libmylib.so")
    );
}

#[test]
fn join_dir_trims_both_slashes() {
    assert_eq!(join_dir("out/", "a"), "out/a");
    assert_eq!(join_dir("out\\", "a"), "out/a");
}

#[test]
fn with_exe_no_double() {
    assert_eq!(with_exe_suffix("hello"), "hello.exe");
    assert_eq!(with_exe_suffix("hello.exe"), "hello.exe");
    assert_eq!(with_exe_suffix("KERNEL.ELF"), "KERNEL.ELF");
    assert_eq!(with_exe_suffix("x.dll"), "x.dll");
}

#[test]
fn default_bin_rel_exact_layout() {
    assert_eq!(default_bin_rel("debug", "hello", Some(TRIPLE)), "./target/x86_64-unknown-linux-gnu/debug/hello");
    assert_eq!(default_bin_rel("debug", "hello", None), "./target/debug/hello");
}

#[test]
fn hosts_place_libraries_by_convention() {
    let mac = Host { os: HostOs::Macos, triple: "aarch64-apple-darwin".to_string() };
    let win = Host { os: HostOs::Windows, triple: "x86_64-pc-windows-msvc".to_string() };
    let lin = Host { os: HostOs::Linux, triple: TRIPLE.to_string() };
    assert_eq!(platform::shared_lib_path(&mac, "debug", "m", Some("out")), "out/libm.dylib");
    assert_eq!(platform::lib_path(&win, "debug", "m", Some("out")), "out/m.lib");
    assert_eq!(platform::bin_path(&win, "debug", "hello", Some("out")), "out/hello.exe");
    assert_eq!(platform::bin_path(&lin, "debug", "hello", Some("out")), "out/hello");
    assert_eq!(platform::efi_path(&lin, "debug", "boot", Some("out")), "out/boot.efi");
}

#[test]
fn exe_suffix_applied_twice_is_applied_once() {
    for n in ["hello", "HELLO.EXE", "a.b", "dir/x", ".hidden", ""] {
        let once = with_exe_suffix(n);
        assert_eq!(with_exe_suffix(&once), once);
    }
}
