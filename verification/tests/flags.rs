use dcr::cli::flags::{parse_build_run_flags, split_double_dash, FlagsError};

fn s(args: &[&str]) -> Vec<String> {
    args.iter().map(|a| a.to_string()).collect()
}

#[test]
fn split_double_dash_empty_tail() {
    let args = s(&["--release", "--force"]);
    let (left, right) = split_double_dash(&args);
    assert_eq!(left, &s(&["--release", "--force"]));
    assert!(right.is_empty());
}

#[test]
fn split_double_dash_with_bin_args() {
    let args = s(&["--release", "--", "--test_help", "x"]);
    let (left, right) = split_double_dash(&args);
    assert_eq!(left, &s(&["--release"]));
    assert_eq!(right, &s(&["--test_help", "x"]));
}

#[test]
fn parse_run_flags_forwards_after_double_dash() {
    let flags = parse_build_run_flags(&s(&["--release", "--", "--test_help"])).unwrap();
    assert_eq!(flags.profile, "release");
    assert_eq!(flags.bin_args, s(&["--test_help"]));
}

#[test]
fn split_double_dash_only_first_separator_counts() {
    let args = s(&["a", "--", "b", "--", "c"]);
    let (left, right) = split_double_dash(&args);
    assert_eq!(left, &s(&["a"]));
    assert_eq!(right, &s(&["b", "--", "c"]));
}

#[test]
fn parse_flags_defaults_to_debug() {
    let flags = parse_build_run_flags(&s(&[])).unwrap();
    assert_eq!(flags.profile, "debug");
    assert!(flags.bin_args.is_empty());
}

#[test]
fn parse_flags_rejects_two_profiles() {
    let r = parse_build_run_flags(&s(&["--release", "--debug"]));
    assert!(matches!(r, Err(FlagsError::DuplicateProfile)));
}

#[test]
fn parse_flags_rejects_unknown_argument() {
    let r = parse_build_run_flags(&s(&["--bogus"]));
    assert!(r.is_err());
}

#[test]
fn any_second_profile_flag_is_refused() {
    let r = parse_build_run_flags(&s(&["--debug", "--release"]));
    assert!(matches!(r, Err(FlagsError::DuplicateProfile)));
    let r = parse_build_run_flags(&s(&["--debug", "--debug"]));
    assert!(matches!(r, Err(FlagsError::DuplicateProfile)));
    let ok = parse_build_run_flags(&s(&["--debug", "--force"])).unwrap();
    assert_eq!(ok.profile, "debug");
}
