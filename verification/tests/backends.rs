use dcr::build::archive::{
    fat_kind, inner_position, is_glob_source, layout_dest, slash_parts_exec, volume_label, volume_position,
    with_profile, FatKind,
};
use dcr::build::assembly::{asm_outputs, assembler, check_asm_language, obj_dir};
use dcr::build::builder::{builder_for, BuildContext};
use dcr::build::cache::{
    build_cache_path, compute_build_fingerprint, fingerprint_bytes, fingerprint_file_text, fingerprint_matches,
    is_header_file, lib_candidates, to_hex, FileStamp,
};
use dcr::build::commands::{cc_object_args, filter_asm_flags, gas_args, llvm_ir_args, masm_args, nasm_args, nasm_format};
use dcr::build::common::{needs_rebuild, DepStamp};
use dcr::build::engine::{absolutize_flag_path, find_target_root, library_outputs};
use dcr::build::qt::{moc_flags, qt_command, qt_tool_for, QtTool};
use dcr::build::settings::{
    build_decision, compile_flags, default_build_dir, default_cflags, exclude_dirs, exclude_patterns, has_glob_magic,
    include_dir_candidates, include_paths, link_flags, packages_library, parse_usize_or_zero, source_roots,
    target_dir, targets_to_build, BuildDecision,
};
use dcr::platform::{Host, HostOs};
use sha2::Digest;

fn s(v: &[&str]) -> Vec<String> {
    v.iter().map(|x| x.to_string()).collect()
}

fn linux() -> Host {
    Host { os: HostOs::Linux, triple: "x86_64-unknown-linux-gnu".to_string() }
}

fn macos() -> Host {
    Host { os: HostOs::Macos, triple: "x86_64-apple-darwin".to_string() }
}

fn ctx<'a>(target_dir: Option<&'a str>, kind: &'a str, cflags: &'a [String], empty: &'a [String]) -> BuildContext<'a> {
    BuildContext {
        profile: "debug",
        project_name: "app",
        compiler: "cc",
        language: "c",
        standard: "c11",
        cxx_standard: "c++17",
        target: None,
        target_dir,
        kind,
        platform: None,
        linker: None,
        archiver: None,
        moc: None,
        uic: None,
        rcc: None,
        package_type: None,
        freestanding: false,
        panic_abort: false,
        codegen_units: 0,
        source_roots: empty,
        exclude_dirs: empty,
        include_paths: empty,
        include_dirs: empty,
        lib_dirs: empty,
        libs: empty,
        cflags,
        ldflags: empty,
        output_filename: None,
        output_extension: None,
        verbose: false,
        qt: false,
    }
}

#[test]
fn builder_resolves_by_compiler_name() {
    assert_eq!(builder_for("gcc").id(), "cc");
    assert_eq!(builder_for("clang").id(), "cc");
    assert_eq!(builder_for("clang++").id(), "cc");
    assert_eq!(builder_for("").id(), "cc");
    assert_eq!(builder_for("nasm").id(), "nasm");
    assert_eq!(builder_for("as").id(), "gas");
    assert_eq!(builder_for("llc-18").id(), "llvm_ir");
    assert_eq!(builder_for("fasm").id(), "fasm");
    assert_eq!(builder_for("ml64").id(), "masm");
    assert_eq!(builder_for("cl").id(), "msvc");
    assert_eq!(builder_for("clang-cl").id(), "msvc");
}

#[test]
fn absolutize_prefers_long_include_prefixes() {
    let root = "/pkg";
    let prefs = ["-isystem", "-idirafter", "-I", "-i"];
    assert_eq!(absolutize_flag_path("-isystemvendor/inc", root, &prefs), "-isystem/pkg/vendor/inc");
    assert_eq!(absolutize_flag_path("-idiraftervendor/old", root, &prefs), "-idirafter/pkg/vendor/old");
    assert_eq!(absolutize_flag_path("-I../inc", root, &prefs), "-I/pkg/../inc");
    assert_eq!(absolutize_flag_path("-i../inc", root, &prefs), "-i/pkg/../inc");
    assert_eq!(absolutize_flag_path("-I/usr/include", root, &prefs), "-I/usr/include");
}

#[test]
fn absolutize_keeps_response_files_and_other_flags() {
    let prefs = ["-L", "-T"];
    assert_eq!(absolutize_flag_path("-L@libs.rsp", "/p", &prefs), "-L@libs.rsp");
    assert_eq!(absolutize_flag_path("-Tlink.ld", "/p", &prefs), "-T/p/link.ld");
    assert_eq!(absolutize_flag_path("-lm", "/p", &prefs), "-lm");
    assert_eq!(absolutize_flag_path("-L", "/p", &prefs), "-L");
}

#[test]
fn find_target_root_walks_up() {
    assert_eq!(find_target_root("/a/target/debug/obj", "/fb"), "/a/target");
    assert_eq!(find_target_root("/a/target", "/fb"), "/a/target");
    assert_eq!(find_target_root("/a/b", "/fb"), "/fb");
}

#[test]
fn library_outputs_by_kind() {
    let none: Vec<String> = Vec::new();
    let host = linux();
    let c = ctx(Some("out"), "staticlib", &none, &none);
    assert_eq!(library_outputs(&host, &c), vec!["out/libapp.a".to_string()]);
    let c = ctx(Some("out"), "bin", &none, &none);
    assert!(library_outputs(&host, &c).is_empty());
}

#[test]
fn default_cflags_per_profile() {
    assert_eq!(
        default_cflags("debug", "", true, &[]),
        s(&["-O0", "-g", "-Wall", "-Wextra", "-fno-omit-frame-pointer", "-DDCR_DEBUG"])
    );
    assert_eq!(default_cflags("release", "", false, &[]), s(&["-O3", "-DNDEBUG"]));
    assert_eq!(default_cflags("release", "2", true, &s(&["error"])), s(&["-O2", "-g", "-Werror", "-DNDEBUG"]));
    assert_eq!(default_cflags("bench", "", false, &[]), s(&["-O0"]));
}

#[test]
fn compile_and_link_flags() {
    assert_eq!(
        compile_flags(&s(&["-Wall"]), "debug", "", true, &[], true, &s(&["-x"]), true),
        s(&["-Wall", "-x", "-flto"])
    );
    assert!(compile_flags(&[], "debug", "", true, &[], false, &[], false).is_empty());
    assert_eq!(compile_flags(&[], "release", "", false, &[], true, &[], false), s(&["-O3", "-DNDEBUG"]));
    assert_eq!(link_flags(&s(&["-lm"]), "link.ld", true, true), s(&["-lm", "-Tlink.ld", "-flto", "-s"]));
    assert_eq!(link_flags(&[], "", false, false), Vec::<String>::new());
}

#[test]
fn exclude_and_include_patterns() {
    let ex = s(&[" vendor ", "", "gen/*", "/abs/x", "win\\dir"]);
    assert_eq!(exclude_dirs(&s(&["/ws/a"]), &ex, "/p"), s(&["/ws/a", "/p/vendor", "/abs/x", "/p/win\\dir"]));
    assert_eq!(exclude_patterns(&ex), s(&["vendor", "gen/*", "/abs/x", "win/dir"]));
    assert_eq!(
        include_paths(&s(&[" vendor "]), &s(&["inc\\sub", "gen/*.c"])),
        s(&["!vendor", "inc/sub", "gen/*.c"])
    );
    assert_eq!(include_dir_candidates(&s(&["include", "gen/*", " "]), "/p"), s(&["/p/include"]));
    assert!(has_glob_magic("a/[ab].c"));
    assert!(!has_glob_magic("a/b.c"));
}

#[test]
fn source_roots_default_to_src() {
    assert_eq!(source_roots(&[], false, "/p"), s(&["/p/src"]));
    assert!(source_roots(&[], true, "/p").is_empty());
    assert_eq!(source_roots(&s(&[" lib ", "/abs", ""]), false, "/p"), s(&["/p/lib", "/abs"]));
}

#[test]
fn targets_to_build_expand_short_names() {
    assert_eq!(targets_to_build(Some("linux"), &[]), vec![Some("x86_64-unknown-linux-gnu".to_string())]);
    assert_eq!(targets_to_build(None, &[]), vec![None]);
    assert_eq!(
        targets_to_build(None, &s(&["windows", "arm-none-eabi"])),
        vec![Some("x86_64-pc-windows-msvc".to_string()), Some("arm-none-eabi".to_string())]
    );
}

#[test]
fn target_dir_choices() {
    let host = linux();
    assert_eq!(default_build_dir(&host, "debug"), "x86_64-unknown-linux-gnu/debug");
    assert_eq!(default_build_dir(&macos(), "debug"), "debug");
    assert_eq!(target_dir("out", "/p", None, None, "debug", &host, None), "/p/out");
    assert_eq!(target_dir("/abs/out", "/p", Some("/ws"), None, "debug", &host, None), "/abs/out");
    assert_eq!(
        target_dir("", "/p", Some("/ws"), Some("linux"), "release", &host, None),
        "/ws/target/x86_64-unknown-linux-gnu/release"
    );
    assert_eq!(
        target_dir("", "/p", Some("/ws"), None, "debug", &host, None),
        "/ws/target/x86_64-unknown-linux-gnu/debug"
    );
    assert_eq!(target_dir("", "/p", None, None, "debug", &host, None), "/p/target/x86_64-unknown-linux-gnu/debug");
    assert_eq!(target_dir("", "/p", None, None, "debug", &macos(), None), "/p/target/debug");
    assert_eq!(
        target_dir("", "/p", None, Some("arm"), "debug", &host, Some("target/arm/debug")),
        "/p/target/arm/debug"
    );
}

#[test]
fn parse_usize_or_zero_reads_numbers() {
    assert_eq!(parse_usize_or_zero("16"), 16);
    assert_eq!(parse_usize_or_zero("+7"), 7);
    assert_eq!(parse_usize_or_zero("0012"), 12);
    assert_eq!(parse_usize_or_zero(""), 0);
    assert_eq!(parse_usize_or_zero("+"), 0);
    assert_eq!(parse_usize_or_zero("x"), 0);
    assert_eq!(parse_usize_or_zero("-1"), 0);
    assert_eq!(parse_usize_or_zero(" 5"), 0);
    assert_eq!(parse_usize_or_zero("99999999999999999999999"), 0);
    assert_eq!(parse_usize_or_zero(&usize::MAX.to_string()), usize::MAX);
}

#[test]
fn build_decisions() {
    assert_eq!(build_decision(false, false, true, false), BuildDecision { run_steps: false, compile: false, stop: true });
    assert_eq!(build_decision(true, false, true, false), BuildDecision { run_steps: true, compile: true, stop: false });
    assert_eq!(build_decision(false, true, true, false), BuildDecision { run_steps: true, compile: true, stop: false });
    assert_eq!(build_decision(false, false, true, true), BuildDecision { run_steps: false, compile: false, stop: false });
    assert_eq!(build_decision(false, false, false, false), BuildDecision { run_steps: false, compile: true, stop: false });
    assert!(packages_library(Some("lib"), "bin"));
    assert!(packages_library(None, "staticlib"));
    assert!(packages_library(None, "sharedlib"));
    assert!(!packages_library(Some("app"), "bin"));
}

#[test]
fn assembly_language_check() {
    assert!(check_asm_language("asm", "NASM").is_ok());
    assert!(check_asm_language("ASM, ll", "NASM").is_ok());
    assert_eq!(
        check_asm_language("c", "NASM"),
        Err("NASM backend requires build.language = \"asm\" (or llvm_ir for LLC)".to_string())
    );
    assert!(check_asm_language("asm,", "GAS").is_err());
    assert_eq!(assembler("", "nasm"), "nasm");
    assert_eq!(assembler("yasm", "nasm"), "yasm");
}

#[test]
fn assembly_outputs() {
    let none: Vec<String> = Vec::new();
    let c = ctx(Some("/out"), "bin", &none, &none);
    assert_eq!(obj_dir(&c), "/out/obj");
    let srcs = s(&["./src/boot.asm", "src/x/y.s"]);
    assert_eq!(asm_outputs(&c, &srcs, false), s(&["/out/obj/boot.o", "/out/obj/x/y.o"]));
    assert_eq!(asm_outputs(&c, &srcs, true), s(&["/out/boot.bin", "/out/y.bin"]));
    let d = ctx(None, "bin", &none, &none);
    assert_eq!(obj_dir(&d), "./target/debug/obj");
}

#[test]
fn assembler_arguments() {
    let none: Vec<String> = Vec::new();
    let flags = s(&["-Iinc", "-O2", "-g", "-ifoo"]);
    let c = ctx(None, "bin", &flags, &none);
    assert_eq!(filter_asm_flags(&flags), s(&["-Iinc", "-g", "-ifoo"]));
    assert_eq!(nasm_format(HostOs::Linux, None), "elf64");
    assert_eq!(nasm_format(HostOs::Windows, Some("i686")), "win32");
    assert_eq!(nasm_format(HostOs::Macos, Some("x86")), "macho32");
    assert_eq!(nasm_args(HostOs::Linux, &c, "a.asm", "a.o"), s(&["-f", "elf64", "a.asm", "-o", "a.o", "-Iinc", "-g", "-ifoo"]));
    let flat = ctx(None, "flat-bin", &flags, &none);
    assert_eq!(nasm_args(HostOs::Linux, &flat, "a.asm", "a.bin")[1], "bin");
    assert_eq!(gas_args(&c, "a.s", "a.o"), s(&["a.s", "-o", "a.o", "-Iinc", "-g", "-ifoo"]));
    assert_eq!(masm_args(&c, "a.asm", "a.obj"), s(&["/nologo", "/c", "/Fo", "a.obj", "a.asm", "-Iinc", "-g", "-ifoo"]));
    assert_eq!(llvm_ir_args(&c, "a.ll", "a.o"), s(&["-filetype=obj", "a.ll", "-o", "a.o", "-Iinc", "-O2", "-g", "-ifoo"]));
}

#[test]
fn cc_object_arguments() {
    let none: Vec<String> = Vec::new();
    let inc = s(&["include"]);
    let mut c = ctx(None, "sharedlib", &none, &none);
    c.include_dirs = &inc;
    c.platform = Some("native");
    let defaults = s(&["-O0", "-g"]);
    assert_eq!(
        cc_object_args(&c, "src/a.c", "obj/a.o", None, false, &defaults, Some("qt")),
        s(&["-c", "src/a.c", "-o", "obj/a.o", "-fPIC", "-march=native", "-std=c11", "-O0", "-g", "-Iinclude", "-Iqt", "-MMD", "-MF", "obj/a.d"])
    );
    assert_eq!(
        cc_object_args(&c, "src/b.cpp", "obj/b.o", Some("assembler-with-cpp"), true, &defaults, None),
        s(&["-c", "-x", "assembler-with-cpp", "src/b.cpp", "-o", "obj/b.o", "-fPIC", "-ffreestanding", "-march=native", "-std=c++17", "-Iinclude", "-MMD", "-MF", "obj/b.d"])
    );
}

#[test]
fn cache_paths_and_fingerprint() {
    assert_eq!(build_cache_path("debug", None), "./target/debug/.dcr-build.hash");
    assert_eq!(build_cache_path("debug", Some("/out")), "/out/.dcr-build.hash");
    assert!(is_header_file("inc/a.hpp"));
    assert!(!is_header_file("src/a.c"));
    assert_eq!(lib_candidates(HostOs::Linux, "z"), s(&["libz.a", "libz.so", "libz.so.0"]));
    assert_eq!(lib_candidates(HostOs::Windows, "z"), s(&["z.lib"]));
    assert_eq!(to_hex(&[0x00, 0xab, 0x10]), "00ab10");
    assert!(fingerprint_matches("abc\n", "abc"));
    assert!(!fingerprint_matches("abd", "abc"));
    assert_eq!(fingerprint_file_text("abc"), "abc\n");
}

#[test]
fn fingerprint_is_sha256_of_inputs() {
    let none: Vec<String> = Vec::new();
    let c = ctx(None, "bin", &none, &none);
    let files = vec![FileStamp { path: "src/a.c".to_string(), len: 3, modified_nanos: Some(7) }];
    let bytes = fingerprint_bytes(&c, "[package]", None, &files);
    let digest = sha2::Sha256::digest(&bytes);
    let expected: String = digest.iter().map(|b| format!("{:02x}", b)).collect();
    let fp = compute_build_fingerprint(&c, "[package]", None, &files);
    assert_eq!(fp.len(), 64);
    assert_eq!(fp, expected);
    let other = compute_build_fingerprint(&c, "[package]", Some("lock"), &files);
    assert_ne!(fp, other);
    assert!(fingerprint_matches(&fingerprint_file_text(&fp), &fp));
    let mut expected_bytes = b"debugappcccc11bin".to_vec();
    expected_bytes.extend_from_slice(b"[package]src/a.c");
    expected_bytes.extend_from_slice(&3u64.to_le_bytes());
    expected_bytes.extend_from_slice(&7u128.to_le_bytes());
    assert_eq!(bytes, expected_bytes);
}

#[test]
fn rebuild_decisions() {
    assert!(needs_rebuild("src/a.c", "obj/a.o", Some(1), None, None));
    assert!(needs_rebuild("src/a.c", "obj/a.o", None, Some(3), None));
    assert!(needs_rebuild("src/a.c", "obj/a.o", Some(5), Some(3), None));
    assert!(!needs_rebuild("src/a.c", "obj/a.o", Some(1), Some(3), None));
    let stamp = |p: &str, present: bool, time: Option<u128>| DepStamp { path: p.to_string(), present, time };
    let deps = vec![stamp("src/a.c", true, Some(9)), stamp("inc/a.h", true, Some(2))];
    assert!(!needs_rebuild("src/a.c", "obj/a.o", Some(1), Some(3), Some(&deps)));
    let deps = vec![stamp("inc/b.h", false, None)];
    assert!(needs_rebuild("src/a.c", "obj/a.o", Some(1), Some(3), Some(&deps)));
    let deps = vec![stamp("inc/c.h", true, Some(4))];
    assert!(needs_rebuild("src/a.c", "obj/a.o", Some(1), Some(3), Some(&deps)));
    let deps = vec![stamp("src//a.c", true, Some(99)), stamp("obj/./a.o", false, None)];
    assert!(!needs_rebuild("src/a.c", "obj/a.o", Some(1), Some(3), Some(&deps)));
}

#[test]
fn qt_generators() {
    assert_eq!(qt_tool_for("ui/main.ui"), Some(QtTool::Uic));
    assert_eq!(qt_tool_for("res.qrc"), Some(QtTool::Rcc));
    assert_eq!(qt_tool_for("w.hpp"), Some(QtTool::Moc));
    assert_eq!(qt_tool_for("a.cpp"), None);
    assert_eq!(qt_tool_for("Makefile"), None);
    assert_eq!(
        moc_flags("-I/usr/include/qt6 -DQT_CORE_LIB  -fPIC\n-I/x"),
        s(&["-I/usr/include/qt6", "-DQT_CORE_LIB", "-I/x"])
    );
    let uic = qt_command(QtTool::Uic, "uic", "src/form.ui", "/b/qt", &[], &[]);
    assert_eq!(uic.program, "uic");
    assert_eq!(uic.args, s(&["src/form.ui", "-o", "/b/qt/ui_form.h"]));
    let rcc = qt_command(QtTool::Rcc, "rcc", "res/app.qrc", "/b/qt", &[], &[]);
    assert_eq!(rcc.args, s(&["res/app.qrc", "-name", "app", "-o", "/b/qt/qrc_app.cpp"]));
    let moc = qt_command(QtTool::Moc, "moc", "src/w.h", "/b/qt", &s(&["-DX"]), &s(&["inc", "/usr/inc"]));
    assert_eq!(moc.args, s(&["-DX", "-I", "inc", "-I", "/usr/inc", "src/w.h", "-o", "/b/qt/moc_w.cpp"]));
}

#[test]
fn disk_image_layout() {
    assert_eq!(fat_kind("FAT32"), Some(FatKind::Fat32));
    assert_eq!(fat_kind("fat12"), Some(FatKind::Fat12));
    assert_eq!(fat_kind("exfat"), None);
    assert_eq!(volume_label(None), b"VOLUME     ".to_vec());
    assert_eq!(volume_label(Some("MYDISKLABEL123")), b"MYDISKLABEL".to_vec());
    assert!(is_glob_source("out/*.bin"));
    assert!(!is_glob_source("out/a.bin"));
    assert_eq!(with_profile("target/{profile}/x", "release"), "target/release/x");
    assert_eq!(slash_parts_exec("/a//b/"), s(&["a", "b"]));
    assert_eq!(layout_dest("/EFI/BOOT/BOOTX64.EFI", false, "app.efi"), (s(&["EFI", "BOOT"]), "BOOTX64.EFI".to_string()));
    assert_eq!(layout_dest("/EFI/BOOT/", false, "app.efi"), (s(&["EFI", "BOOT"]), "app.efi".to_string()));
    assert_eq!(layout_dest("boot", false, "k.bin"), (s(&["boot"]), "k.bin".to_string()));
    assert_eq!(layout_dest("k.bin", false, "x.bin"), (Vec::<String>::new(), "k.bin".to_string()));
    assert_eq!(layout_dest("/x/y.z", true, "f.o"), (s(&["x", "y.z"]), "f.o".to_string()));
    assert_eq!(inner_position(5, 512), 517);
    assert_eq!(volume_position(100, 512), 0);
    assert_eq!(volume_position(600, 512), 88);
}

#[test]
fn build_error_from_message() {
    let e = dcr::build::report::BuildError::from("link failed".to_string());
    assert_eq!(e.message, "link failed");
}

#[test]
fn header_roots_default_to_src_and_keep_inner_include_dirs() {
    let inc = vec!["/p/include".to_string(), "/usr/include".to_string(), "/p/vendor/inc".to_string()];
    assert_eq!(
        dcr::build::cache::header_roots(&[], &inc, "/p"),
        vec!["/p/src".to_string(), "/p/include".to_string(), "/p/vendor/inc".to_string()]
    );
    let roots = vec!["/p/lib".to_string()];
    assert_eq!(dcr::build::cache::header_roots(&roots, &[], "/p"), vec!["/p/lib".to_string()]);
    assert_eq!(dcr::build::cache::header_roots(&roots, &["/pq/x".to_string()], "/p"), vec!["/p/lib".to_string()]);
}

#[test]
fn qt_tool_directory_queries() {
    assert!(dcr::build::qt::qt_query_order(&["zlib".to_string()]).is_empty());
    assert_eq!(
        dcr::build::qt::qt_query_order(&["zlib".to_string(), "Qt6Network".to_string()]),
        vec!["Qt6Core".to_string(), "Qt6Widgets".to_string(), "Qt6Gui".to_string(), "Qt6Network".to_string()]
    );
    assert_eq!(dcr::build::qt::qt6_variants("moc"), vec!["moc6".to_string(), "moc-qt6".to_string()]);
}

#[test]
fn needs_rebuild_no_object() {
    assert!(needs_rebuild("test.c", "test.o", Some(100), None, None));
}

#[test]
fn needs_rebuild_fresh() {
    assert!(!needs_rebuild("test.c", "test.o", Some(100), Some(150), None));
}

#[test]
fn needs_rebuild_stale() {
    assert!(needs_rebuild("test.c", "test.o", Some(150), Some(100), None));
}

#[test]
fn needs_rebuild_header_modified() {
    let fresh = vec![
        DepStamp { path: "test.c".to_string(), present: true, time: Some(100) },
        DepStamp { path: "test.h".to_string(), present: true, time: Some(100) },
    ];
    assert!(!needs_rebuild("test.c", "test.o", Some(100), Some(150), Some(&fresh)), "should be fresh");
    let changed = vec![
        DepStamp { path: "test.c".to_string(), present: true, time: Some(100) },
        DepStamp { path: "test.h".to_string(), present: true, time: Some(200) },
    ];
    assert!(needs_rebuild("test.c", "test.o", Some(100), Some(150), Some(&changed)), "changed header should trigger rebuild");
}

#[test]
fn primary_language_and_compiler_choice() {
    assert_eq!(dcr::build::settings::primary_language(" C++ , c"), "c++");
    assert_eq!(dcr::build::settings::primary_language("ASM"), "asm");
    assert_eq!(dcr::build::settings::primary_language(""), "");
    let rc = dcr::build::settings::resolve_compiler;
    assert_eq!(rc("c++", "clang", Some("gcc"), Some("g++"), Some("as")), "g++");
    assert_eq!(rc("asm", "clang", Some("gcc"), None, Some("nasm")), "nasm");
    assert_eq!(rc("asm", "clang", Some("gcc"), Some("g++"), None), "clang");
    assert_eq!(rc("c", "clang", Some("gcc"), Some("g++"), None), "gcc");
    assert_eq!(rc("c", "clang", None, None, None), "clang");
}

#[test]
fn msvc_flags_and_compile_arguments() {
    let std_flag = dcr::build::commands::msvc_standard_flag;
    assert_eq!(std_flag("C", "C17").unwrap(), "/std:c17");
    assert_eq!(std_flag("cpp", "c++23").unwrap(), "/std:c++latest");
    assert_eq!(std_flag("c", "c99").unwrap_err(), "Unsupported C standard for MSVC");
    assert_eq!(std_flag("c++", "c++98").unwrap_err(), "Unsupported C++ standard for MSVC");
    assert_eq!(std_flag("asm", "c11").unwrap_err(), "Unsupported language");
    assert_eq!(dcr::build::commands::msvc_profile_flags("release"), vec!["/O2", "/DNDEBUG"]);
    assert!(dcr::build::commands::msvc_profile_flags("bench").is_empty());
    assert_eq!(
        dcr::build::commands::msvc_compile_args("c", "c11", "release", "src/main.c", "obj/main.obj").unwrap(),
        vec!["/nologo", "/TC", "/std:c11", "/O2", "/DNDEBUG", "/c", "src/main.c", "/Fo:obj/main.obj"]
    );
    assert_eq!(
        dcr::build::commands::msvc_compile_args("c++", "", "other", "a.cpp", "a.obj").unwrap(),
        vec!["/nologo", "/TP", "/c", "a.cpp", "/Fo:a.obj"]
    );
    assert_eq!(dcr::build::commands::msvc_compile_args("rust", "", "debug", "a.rs", "a.obj").unwrap_err(), "Unsupported language");
}

#[test]
fn bare_metal_targets() {
    let b = dcr::build::settings::is_bare_metal_target;
    assert!(b(Some("thumbv7em-none-eabihf")));
    assert!(b(Some("x86_64-unknown-elf")));
    assert!(!b(Some("x86_64-unknown-linux-gnu")));
    assert!(!b(None));
}

#[test]
fn artifact_kind_defaults_to_bin() {
    assert_eq!(dcr::build::settings::normalize_kind(""), "bin");
    assert_eq!(dcr::build::settings::normalize_kind("  "), "bin");
    assert_eq!(dcr::build::settings::normalize_kind(" StaticLib "), "staticlib");
}

#[test]
fn assembly_sources_get_a_language_flag() {
    assert_eq!(dcr::build::common::asm_lang_flag("src/boot.S"), Some("assembler-with-cpp"));
    assert_eq!(dcr::build::common::asm_lang_flag("src/boot.s"), Some("assembler-with-cpp"));
    assert_eq!(dcr::build::common::asm_lang_flag("src/main.c"), None);
}

#[test]
fn image_size_parts_and_units() {
    let (n, u) = dcr::build::archive::size_parts("1.5 MB");
    assert_eq!((n.as_str(), u.as_str()), ("1.5", " MB"));
    assert_eq!(dcr::build::archive::unit_factor(" MB"), Ok(1048576));
    assert_eq!(dcr::build::archive::unit_factor("k"), Ok(1024));
    assert_eq!(dcr::build::archive::unit_factor("G"), Ok(1073741824));
    assert_eq!(dcr::build::archive::unit_factor(""), Ok(1));
    assert_eq!(dcr::build::archive::unit_factor("tb"), Err("unknown unit: tb".to_string()));
}

#[test]
fn qt_per_file_decisions() {
    let d = dcr::build::qt::qt_decision;
    let run = |t| dcr::build::qt::QtDecision::Run(t);
    assert_eq!(d("ui/main.ui", true, true, true, None), run(dcr::build::qt::QtTool::Uic));
    assert_eq!(d("ui/main.ui", false, true, true, None), dcr::build::qt::QtDecision::Skip);
    assert_eq!(d("res/app.qrc", true, true, true, None), run(dcr::build::qt::QtTool::Rcc));
    assert_eq!(d("src/w.hpp", true, true, true, None), dcr::build::qt::QtDecision::NeedText);
    assert_eq!(d("src/w.hpp", true, true, true, Some("class W { Q_OBJECT };")), run(dcr::build::qt::QtTool::Moc));
    assert_eq!(d("src/w.hpp", true, true, true, Some("struct P {};")), dcr::build::qt::QtDecision::Skip);
    assert_eq!(d("src/w.hpp", true, true, false, None), dcr::build::qt::QtDecision::Skip);
    assert_eq!(d("src/main.cpp", true, true, true, None), dcr::build::qt::QtDecision::Skip);
}

#[test]
fn backend_source_extensions() {
    assert_eq!(dcr::build::builder::backend_extensions(dcr::build::builder::BuilderKind::Nasm, vec!["c"]), vec!["asm"]);
    assert_eq!(dcr::build::builder::backend_extensions(dcr::build::builder::BuilderKind::Fasm, vec!["c"]), vec!["asm", "fasm"]);
    assert_eq!(dcr::build::builder::backend_extensions(dcr::build::builder::BuilderKind::Gas, vec!["c"]), vec!["s"]);
    assert_eq!(dcr::build::builder::backend_extensions(dcr::build::builder::BuilderKind::Llc, vec!["c"]), vec!["ll"]);
    assert_eq!(dcr::build::builder::backend_extensions(dcr::build::builder::BuilderKind::Cc, vec!["cpp", "cc"]), vec!["cpp", "cc"]);
}
