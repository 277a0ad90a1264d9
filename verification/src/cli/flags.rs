//! Flags shared by `dcr build` and `dcr run`.
use vstd::prelude::*;

use crate::config::{is_profile, is_profile_exec};
use crate::text::{has_prefix, str_eq, trim_start_matches, trim_start_matches_exec, views};

verus! {

/// Options parsed from `dcr build` / `dcr run` arguments.
pub struct BuildRunFlags {
    /// Build profile name (for example `debug` or `release`).
    pub profile: String,
    /// Optional target triple or platform name.
    pub target: Option<String>,
    /// Optional workspace member name (`--workspace <name>`).
    pub workspace: Option<String>,
    /// Force a rebuild even when artifacts appear up to date.
    pub force: bool,
    /// Clean build outputs before building.
    pub clean: bool,
    /// Enable verbose logging during the build or run.
    pub verbose: bool,
    /// Print the final artifact path to the user.
    pub print_artifact_path: bool,
    /// Arguments forwarded to the binary after a `--` separator.
    pub bin_args: Vec<String>,
}

/// Why the flags were refused; the command then exits with status 1.
#[derive(Clone, Copy, PartialEq, Eq, Structural, Debug)]
pub enum FlagsError {
    /// An argument that does not start with `--`.
    UnknownArgument,
    /// `--workspace` as the last argument.
    MissingWorkspaceValue,
    /// `--target` as the last argument.
    MissingTargetValue,
    /// A second, different profile flag.
    DuplicateProfile,
    /// A `--name` flag that is not known.
    UnknownBuildFlag,
}

/// The warning shown for a refused argument list.
pub open spec fn flags_message_spec(e: FlagsError) -> Seq<char> {
    match e {
        FlagsError::UnknownArgument => "Unknown argument"@,
        FlagsError::MissingWorkspaceValue => "--workspace requires a value"@,
        FlagsError::MissingTargetValue => "--target requires a value"@,
        FlagsError::DuplicateProfile => "Duplicate profile flag"@,
        FlagsError::UnknownBuildFlag => "Unknown build flag"@,
    }
}

impl FlagsError {
    /// The warning shown to the user.
    pub fn message(&self) -> (r: &'static str)
        ensures
            r@ == flags_message_spec(*self),
    {
        match self {
            FlagsError::UnknownArgument => "Unknown argument",
            FlagsError::MissingWorkspaceValue => "--workspace requires a value",
            FlagsError::MissingTargetValue => "--target requires a value",
            FlagsError::DuplicateProfile => "Duplicate profile flag",
            FlagsError::UnknownBuildFlag => "Unknown build flag",
        }
    }

    /// The process exit status for a refused argument list.
    pub fn exit_code(&self) -> (r: i32)
        ensures
            r == 1,
    {
        1
    }
}

/// The parsed options, as values.
pub struct FlagsModel {
    pub profile: Seq<char>,
    pub target: Option<Seq<char>>,
    pub workspace: Option<Seq<char>>,
    pub force: bool,
    pub clean: bool,
    pub verbose: bool,
    pub print_artifact_path: bool,
}

/// The options before any argument is read.
pub open spec fn initial_model() -> FlagsModel {
    FlagsModel {
        profile: "debug"@,
        target: None,
        workspace: None,
        force: false,
        clean: false,
        verbose: false,
        print_artifact_path: false,
    }
}

/// Reads the DCR-side arguments from position `i` on, starting from options
/// `m`; `seen` tells whether a profile flag was given already (only one may be).
pub open spec fn parse_from(args: Seq<Seq<char>>, i: int, m: FlagsModel, seen: bool) -> Result<FlagsModel, FlagsError>
    decreases args.len() - i,
{
    if i >= args.len() || i < 0 {
        Ok(m)
    } else {
        let arg = args[i];
        let c = trim_start_matches(arg, "--"@);
        if !has_prefix(arg, "--"@) {
            Err(FlagsError::UnknownArgument)
        } else if c == "force"@ {
            parse_from(args, i + 1, FlagsModel { force: true, ..m }, seen)
        } else if c == "clean"@ {
            parse_from(args, i + 1, FlagsModel { clean: true, ..m }, seen)
        } else if c == "verbose"@ {
            parse_from(args, i + 1, FlagsModel { verbose: true, ..m }, seen)
        } else if c == "print-artifact-path"@ {
            parse_from(args, i + 1, FlagsModel { print_artifact_path: true, ..m }, seen)
        } else if c == "workspace"@ {
            if i + 1 < args.len() {
                parse_from(args, i + 2, FlagsModel { workspace: Some(args[i + 1]), ..m }, seen)
            } else {
                Err(FlagsError::MissingWorkspaceValue)
            }
        } else if c == "target"@ {
            if i + 1 < args.len() {
                parse_from(args, i + 2, FlagsModel { target: Some(args[i + 1]), ..m }, seen)
            } else {
                Err(FlagsError::MissingTargetValue)
            }
        } else if is_profile(c) {
            if seen {
                Err(FlagsError::DuplicateProfile)
            } else {
                parse_from(args, i + 1, FlagsModel { profile: c, ..m }, true)
            }
        } else {
            Err(FlagsError::UnknownBuildFlag)
        }
    }
}

/// Index of the first `--` argument, if any.
pub open spec fn first_double_dash(args: Seq<Seq<char>>) -> Option<int> {
    if exists|i: int| 0 <= i < args.len() && args[i] == "--"@ {
        Some(choose|i: int| 0 <= i < args.len() && args[i] == "--"@ && forall|j: int| 0 <= j < i ==> args[j] != "--"@)
    } else {
        None
    }
}

/// The arguments before the first `--` (all of them when there is none).
pub open spec fn dcr_part(args: Seq<Seq<char>>) -> Seq<Seq<char>> {
    match first_double_dash(args) {
        Some(i) => args.take(i),
        None => args,
    }
}

/// The arguments after the first `--` (none when there is none).
pub open spec fn bin_part(args: Seq<Seq<char>>) -> Seq<Seq<char>> {
    match first_double_dash(args) {
        Some(i) => args.skip(i + 1),
        None => Seq::empty(),
    }
}

/// The option values of `f`.
pub open spec fn flags_model(f: BuildRunFlags) -> FlagsModel {
    FlagsModel {
        profile: f.profile@,
        target: match f.target {
            Some(t) => Some(t@),
            None => None,
        },
        workspace: match f.workspace {
            Some(w) => Some(w@),
            None => None,
        },
        force: f.force,
        clean: f.clean,
        verbose: f.verbose,
        print_artifact_path: f.print_artifact_path,
    }
}

/// The first `--` exists at `i`.
proof fn lemma_first_double_dash(args: Seq<Seq<char>>, i: int)
    requires
        0 <= i < args.len(),
        args[i] == "--"@,
        forall|j: int| 0 <= j < i ==> args[j] != "--"@,
    ensures
        first_double_dash(args) == Some(i),
{
    let k = choose|k: int| 0 <= k < args.len() && args[k] == "--"@ && forall|j: int| 0 <= j < k ==> args[j] != "--"@;
    assert(0 <= k < args.len() && args[k] == "--"@ && forall|j: int| 0 <= j < k ==> args[j] != "--"@);
    if k < i {
        assert(args[k] != "--"@);
    }
    if i < k {
        assert(args[i] != "--"@);
    }
}

/// Splits `args` at the first `--`: the arguments before it and those after it.
pub fn split_double_dash(args: &[String]) -> (r: (&[String], &[String]))
    ensures
        views(r.0@) == dcr_part(views(args@)),
        views(r.1@) == bin_part(views(args@)),
{
    let ghost vs = views(args@);
    let mut i: usize = 0;
    while i < args.len()
        invariant
            i <= args@.len(),
            vs == views(args@),
            forall|j: int| 0 <= j < i ==> vs[j] != "--"@,
        decreases args.len() - i,
    {
        if str_eq(args[i].as_str(), "--") {
            proof {
                lemma_first_double_dash(vs, i as int);
            }
            let (left, rest) = args.split_at(i);
            let (_, right) = rest.split_at(1);
            assert(views(left@) =~= vs.take(i as int));
            assert(views(right@) =~= vs.skip(i + 1));
            return (left, right);
        }
        i = i + 1;
    }
    let (left, right) = args.split_at(args.len());
    assert(views(left@) =~= vs);
    assert(views(right@) =~= Seq::<Seq<char>>::empty());
    (left, right)
}

/// Parses `dcr build` / `dcr run` arguments; the arguments after `--` are
/// forwarded to the binary.
pub fn parse_build_run_flags(args: &[String]) -> (r: Result<BuildRunFlags, FlagsError>)
    ensures
        match r {
            Ok(f) => parse_from(dcr_part(views(args@)), 0, initial_model(), false) == Ok::<FlagsModel, FlagsError>(
                flags_model(f),
            ) && views(f.bin_args@) == bin_part(views(args@)),
            Err(e) => parse_from(dcr_part(views(args@)), 0, initial_model(), false) == Err::<FlagsModel, FlagsError>(e),
        },
{
    let (dcr_args, bin_args_slice) = split_double_dash(args);
    let ghost dv = views(dcr_args@);
    let mut profile = String::from_str(crate::config::PROFILE);
    let mut target: Option<String> = None;
    let mut workspace: Option<String> = None;
    let mut force = false;
    let mut clean = false;
    let mut verbose = false;
    let mut print_artifact_path = false;
    let mut seen = false;
    let mut i: usize = 0;
    proof {
        reveal_strlit("debug");
    }
    while i < dcr_args.len()
        invariant
            i <= dcr_args@.len(),
            dv == views(dcr_args@),
            dv == dcr_part(views(args@)),
            parse_from(dv, 0, initial_model(), false) == parse_from(
                dv,
                i as int,
                FlagsModel {
                    profile: profile@,
                    target: match target {
                        Some(t) => Some(t@),
                        None => None,
                    },
                    workspace: match workspace {
                        Some(w) => Some(w@),
                        None => None,
                    },
                    force,
                    clean,
                    verbose,
                    print_artifact_path,
                },
                seen,
            ),
        decreases dcr_args.len() - i,
    {
        let arg = dcr_args[i].as_str();
        assert(dv[i as int] == arg@);
        if !crate::text::starts_with(arg, "--") {
            return Err(FlagsError::UnknownArgument);
        }
        proof {
            reveal_strlit("--");
        }
        let candidate = trim_start_matches_exec(arg, "--");
        let c = candidate.as_str();
        if str_eq(c, "force") {
            force = true;
            i = i + 1;
        } else if str_eq(c, "clean") {
            clean = true;
            i = i + 1;
        } else if str_eq(c, "verbose") {
            verbose = true;
            i = i + 1;
        } else if str_eq(c, "print-artifact-path") {
            print_artifact_path = true;
            i = i + 1;
        } else if str_eq(c, "workspace") {
            if i + 1 < dcr_args.len() {
                workspace = Some(dcr_args[i + 1].clone());
                i = i + 2;
            } else {
                return Err(FlagsError::MissingWorkspaceValue);
            }
        } else if str_eq(c, "target") {
            if i + 1 < dcr_args.len() {
                target = Some(dcr_args[i + 1].clone());
                i = i + 2;
            } else {
                return Err(FlagsError::MissingTargetValue);
            }
        } else if is_profile_exec(c) {
            if seen {
                return Err(FlagsError::DuplicateProfile);
            }
            profile = candidate;
            seen = true;
            i = i + 1;
        } else {
            return Err(FlagsError::UnknownBuildFlag);
        }
    }
    let bin_args = crate::text::clone_strings(bin_args_slice);
    Ok(
        BuildRunFlags {
            profile,
            target,
            workspace,
            force,
            clean,
            verbose,
            print_artifact_path,
            bin_args,
        },
    )
}


/// The option a boolean flag word turns on.
pub open spec fn flag_on(m: FlagsModel, w: Seq<char>) -> FlagsModel {
    if w == "force"@ {
        FlagsModel { force: true, ..m }
    } else if w == "clean"@ {
        FlagsModel { clean: true, ..m }
    } else if w == "verbose"@ {
        FlagsModel { verbose: true, ..m }
    } else {
        FlagsModel { print_artifact_path: true, ..m }
    }
}

proof fn lemma_append_flag(a: Seq<Seq<char>>, i: int, m: FlagsModel, seen: bool, w: Seq<char>, m2: FlagsModel)
    requires
        0 <= i <= a.len(),
        w == "force"@ || w == "clean"@ || w == "verbose"@ || w == "print-artifact-path"@,
        parse_from(a, i, m, seen) == Ok::<FlagsModel, FlagsError>(m2),
    ensures
        parse_from(a.push("--"@ + w), i, m, seen) == Ok::<FlagsModel, FlagsError>(flag_on(m2, w)),
    decreases a.len() - i,
{
    reveal_strlit("--");
    reveal_strlit("force");
    reveal_strlit("clean");
    reveal_strlit("verbose");
    reveal_strlit("print-artifact-path");
    let b = a.push("--"@ + w);
    if i == a.len() {
        crate::cli::run::lemma_flag_word(w);
        assert(b[i] == "--"@ + w);
        assert(m2 == m);
        assert("force"@ != "clean"@) by { assert("force"@[0] != "clean"@[0]); }
        assert("force"@ != "verbose"@) by { assert("force"@[0] != "verbose"@[0]); }
        assert("clean"@ != "verbose"@) by { assert("clean"@[0] != "verbose"@[0]); }
        assert("force"@ != "print-artifact-path"@) by { assert("force"@[0] != "print-artifact-path"@[0]); }
        assert("clean"@ != "print-artifact-path"@) by { assert("clean"@[0] != "print-artifact-path"@[0]); }
        assert("verbose"@ != "print-artifact-path"@) by { assert("verbose"@[0] != "print-artifact-path"@[0]); }
        assert(parse_from(b, i + 1, flag_on(m, w), seen) == Ok::<FlagsModel, FlagsError>(flag_on(m, w)));
    } else {
        let x = a[i];
        assert(b[i] == x);
        let c = trim_start_matches(x, "--"@);
        if !has_prefix(x, "--"@) {
        } else if c == "force"@ {
            lemma_append_flag(a, i + 1, FlagsModel { force: true, ..m }, seen, w, m2);
        } else if c == "clean"@ {
            lemma_append_flag(a, i + 1, FlagsModel { clean: true, ..m }, seen, w, m2);
        } else if c == "verbose"@ {
            lemma_append_flag(a, i + 1, FlagsModel { verbose: true, ..m }, seen, w, m2);
        } else if c == "print-artifact-path"@ {
            lemma_append_flag(a, i + 1, FlagsModel { print_artifact_path: true, ..m }, seen, w, m2);
        } else if c == "workspace"@ {
            if i + 1 < a.len() {
                assert(b[i + 1] == a[i + 1]);
                lemma_append_flag(a, i + 2, FlagsModel { workspace: Some(a[i + 1]), ..m }, seen, w, m2);
            }
        } else if c == "target"@ {
            if i + 1 < a.len() {
                assert(b[i + 1] == a[i + 1]);
                lemma_append_flag(a, i + 2, FlagsModel { target: Some(a[i + 1]), ..m }, seen, w, m2);
            }
        } else if is_profile(c) {
            if !seen {
                lemma_append_flag(a, i + 1, FlagsModel { profile: c, ..m }, true, w, m2);
            }
        }
    }
}

/// Each boolean flag sets its own option: options that parse give the same
/// result with `--force` (`--clean`, `--verbose`, `--print-artifact-path`)
/// added at the end, except that that option is now on.
pub proof fn lemma_boolean_flags_set_their_option(args: Seq<Seq<char>>, m: FlagsModel)
    requires
        parse_from(args, 0, initial_model(), false) == Ok::<FlagsModel, FlagsError>(m),
    ensures
        parse_from(args.push("--force"@), 0, initial_model(), false) == Ok::<FlagsModel, FlagsError>(FlagsModel { force: true, ..m }),
        parse_from(args.push("--clean"@), 0, initial_model(), false) == Ok::<FlagsModel, FlagsError>(FlagsModel { clean: true, ..m }),
        parse_from(args.push("--verbose"@), 0, initial_model(), false) == Ok::<FlagsModel, FlagsError>(FlagsModel { verbose: true, ..m }),
        parse_from(args.push("--print-artifact-path"@), 0, initial_model(), false) == Ok::<FlagsModel, FlagsError>(
            FlagsModel { print_artifact_path: true, ..m },
        ),
{
    reveal_strlit("--");
    reveal_strlit("force");
    reveal_strlit("clean");
    reveal_strlit("verbose");
    reveal_strlit("print-artifact-path");
    reveal_strlit("--force");
    reveal_strlit("--clean");
    reveal_strlit("--verbose");
    reveal_strlit("--print-artifact-path");
    assert("--"@ + "force"@ =~= "--force"@);
    assert("--"@ + "clean"@ =~= "--clean"@);
    assert("--"@ + "verbose"@ =~= "--verbose"@);
    assert("--"@ + "print-artifact-path"@ =~= "--print-artifact-path"@);
    lemma_append_flag(args, 0, initial_model(), false, "force"@, m);
    lemma_append_flag(args, 0, initial_model(), false, "clean"@, m);
    lemma_append_flag(args, 0, initial_model(), false, "verbose"@, m);
    lemma_append_flag(args, 0, initial_model(), false, "print-artifact-path"@, m);
    assert("force"@ != "clean"@) by { assert("force"@[0] != "clean"@[0]); }
    assert("force"@ != "verbose"@) by { assert("force"@[0] != "verbose"@[0]); }
    assert("clean"@ != "verbose"@) by { assert("clean"@[0] != "verbose"@[0]); }
    assert("force"@ != "print-artifact-path"@) by { assert("force"@[0] != "print-artifact-path"@[0]); }
    assert("clean"@ != "print-artifact-path"@) by { assert("clean"@[0] != "print-artifact-path"@[0]); }
    assert("verbose"@ != "print-artifact-path"@) by { assert("verbose"@[0] != "print-artifact-path"@[0]); }
}

} // verus!
