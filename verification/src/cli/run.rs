//! `dcr run`: the command that runs a project, and the arguments of the build
//! it triggers.
use vstd::prelude::*;

use crate::build_config::Config;
use crate::cli::flags::{initial_model, parse_from, BuildRunFlags, FlagsModel};
use crate::resolve::{lookup, normalize_target_os, normalize_target_os_spec};
use crate::text::{concat2, concat3, push_str_item, replace_all, replace_exec, trim, trim_exec, views};
use crate::value::{toml_str, Toml};

verus! {

/// A version split into its parts.
#[derive(Debug)]
pub struct VersionInfo {
    pub full: String,
    pub major: String,
    pub minor: String,
    pub patch: String,
    pub suffix: String,
    pub suffix_dash: String,
}

/// The position of the first `-`, if any.
pub open spec fn first_dash(s: Seq<char>) -> Option<int> {
    if exists|i: int| 0 <= i < s.len() && s[i] == '-' {
        Some(choose|i: int| 0 <= i < s.len() && s[i] == '-' && forall|j: int| 0 <= j < i ==> s[j] != '-')
    } else {
        None
    }
}

/// The `i`-th dot-separated piece of `s`, or nothing when there are fewer.
pub open spec fn dot_piece(s: Seq<char>, i: int) -> Seq<char> {
    let parts = crate::build_config::split_dots(s);
    if i < parts.len() {
        parts[i]
    } else {
        Seq::empty()
    }
}

/// A version read as `major.minor.patch-suffix`: the suffix is what follows
/// the first `-`; the first three dot-separated pieces before it are the
/// major, minor and patch parts (empty when missing).
pub open spec fn version_info_spec(version: Seq<char>) -> (Seq<char>, Seq<char>, Seq<char>, Seq<char>, Seq<char>, Seq<char>) {
    let (core, suffix) = match first_dash(version) {
        Some(i) => (version.take(i), version.skip(i + 1)),
        None => (version, Seq::empty()),
    };
    (
        version,
        dot_piece(core, 0),
        dot_piece(core, 1),
        dot_piece(core, 2),
        suffix,
        if suffix.len() == 0 {
            Seq::empty()
        } else {
            "-"@ + suffix
        },
    )
}

/// The parts of a version as text.
pub open spec fn version_info_view(v: VersionInfo) -> (Seq<char>, Seq<char>, Seq<char>, Seq<char>, Seq<char>, Seq<char>) {
    (v.full@, v.major@, v.minor@, v.patch@, v.suffix@, v.suffix_dash@)
}

fn dot_piece_exec(parts: &Vec<String>, i: usize) -> (r: String)
    ensures
        r@ == (if i < parts@.len() {
            parts@[i as int]@
        } else {
            Seq::<char>::empty()
        }),
{
    if i < parts.len() {
        parts[i].clone()
    } else {
        String::new()
    }
}

/// Splits a version into its parts (see `version_info_spec`).
pub fn parse_version_info(version: &str) -> (r: VersionInfo)
    ensures
        version_info_view(r) == version_info_spec(version@),
{
    let v = crate::text::chars_of(version);
    let mut i: usize = 0;
    while i < v.len() && v[i] != '-'
        invariant
            i <= v@.len(),
            v@ == version@,
            forall|j: int| 0 <= j < i ==> v@[j] != '-',
        decreases v.len() - i,
    {
        i = i + 1;
    }
    let ghost spec_split = match first_dash(version@) {
        Some(k) => (version@.take(k), version@.skip(k + 1)),
        None => (version@, Seq::<char>::empty()),
    };
    let (core, suffix) = if i < v.len() {
        proof {
            assert(v@[i as int] == '-');
            assert(exists|k: int| 0 <= k < version@.len() && version@[k] == '-');
            let k = choose|k: int| 0 <= k < v@.len() && v@[k] == '-' && forall|j: int| 0 <= j < k ==> v@[j] != '-';
            if k < i {
                assert(v@[k] != '-');
            }
            if i < k {
                assert(v@[i as int] != '-');
            }
        }
        let c = crate::text::string_of(&crate::paths::sub_chars(&v, 0, i));
        let s = crate::text::string_of(&crate::paths::sub_chars(&v, i + 1, v.len()));
        assert(c@ =~= spec_split.0);
        assert(s@ =~= spec_split.1);
        (c, s)
    } else {
        assert(first_dash(version@) is None);
        (crate::text::own(version), String::new())
    };
    let parts = crate::build_config::split_key(core.as_str());
    let suffix_dash = if suffix.as_str().is_empty() {
        String::new()
    } else {
        concat2("-", suffix.as_str())
    };
    VersionInfo {
        full: crate::text::own(version),
        major: dot_piece_exec(&parts, 0),
        minor: dot_piece_exec(&parts, 1),
        patch: dot_piece_exec(&parts, 2),
        suffix,
        suffix_dash,
    }
}

/// The run command with `{profile}` and the version placeholders filled in.
pub open spec fn substitute_run_vars_spec(cmd: Seq<char>, profile: Seq<char>, info: VersionInfo) -> Seq<char> {
    replace_all(
        replace_all(
            replace_all(
                replace_all(
                    replace_all(
                        replace_all(replace_all(cmd, "{profile}"@, profile), "{version}"@, info.full@),
                        "{version_major}"@,
                        info.major@,
                    ),
                    "{version_minor}"@,
                    info.minor@,
                ),
                "{version_patch}"@,
                info.patch@,
            ),
            "{version_suffix}"@,
            info.suffix@,
        ),
        "{version_suffix_dash}"@,
        info.suffix_dash@,
    )
}

/// Fills in the placeholders of a run command.
pub fn substitute_run_vars(cmd: &str, profile: &str, info: &VersionInfo) -> (r: String)
    ensures
        r@ == substitute_run_vars_spec(cmd@, profile@, *info),
{
    proof {
        reveal_strlit("{profile}");
        reveal_strlit("{version}");
        reveal_strlit("{version_major}");
        reveal_strlit("{version_minor}");
        reveal_strlit("{version_patch}");
        reveal_strlit("{version_suffix}");
        reveal_strlit("{version_suffix_dash}");
    }
    let a = replace_exec(cmd, "{profile}", profile);
    let b = replace_exec(a.as_str(), "{version}", info.full.as_str());
    let c = replace_exec(b.as_str(), "{version_major}", info.major.as_str());
    let d = replace_exec(c.as_str(), "{version_minor}", info.minor.as_str());
    let e = replace_exec(d.as_str(), "{version_patch}", info.patch.as_str());
    let f = replace_exec(e.as_str(), "{version_suffix}", info.suffix.as_str());
    replace_exec(f.as_str(), "{version_suffix_dash}", info.suffix_dash.as_str())
}

/// The string at a dotted key, if it is one.
pub open spec fn str_at(data: Toml, key: Seq<char>) -> Option<Seq<char>> {
    match lookup(data, key) {
        Some(v) => toml_str(v),
        None => None,
    }
}

/// The custom run command: the target's (`run.<triple>.cmd`, then
/// `run.<target>.cmd`), else the profile's, else `run.cmd`; a value that is
/// not a string counts as absent, and a blank command as none.
pub open spec fn run_cmd_spec(data: Toml, profile: Seq<char>, target: Option<Seq<char>>, info: VersionInfo) -> Option<Seq<char>> {
    let target_cmd = match target {
        Some(t) => match lookup(data, "run."@ + normalize_target_os_spec(t) + ".cmd"@) {
            Some(v) => toml_str(v),
            None => str_at(data, "run."@ + t + ".cmd"@),
        },
        None => None,
    };
    let cmd = match target_cmd {
        Some(c) => Some(c),
        None => match str_at(data, "run."@ + profile + ".cmd"@) {
            Some(c) => Some(c),
            None => str_at(data, "run.cmd"@),
        },
    };
    match cmd {
        Some(c) => if trim(c).len() == 0 {
            None
        } else {
            Some(substitute_run_vars_spec(trim(c), profile, info))
        },
        None => None,
    }
}

fn str_at_exec(config: &Config, key: &str) -> (r: Option<String>)
    ensures
        crate::deps::opt_string_view(r) == str_at(config.data_model(), key@),
{
    match config.get(key) {
        Some(v) => match v.as_str() {
            Some(s) => Some(String::from_str(s)),
            None => None,
        },
        None => None,
    }
}

/// The custom command that runs the project, if the manifest sets one.
pub fn get_run_cmd(config: &Config, profile: &str, target: Option<&str>, info: &VersionInfo) -> (r: Option<String>)
    ensures
        crate::deps::opt_string_view(r) == run_cmd_spec(config.data_model(), profile@, crate::platform::opt_view(target), *info),
{
    let target_cmd = match target {
        Some(t) => {
            let nt = normalize_target_os(t);
            let k1 = concat3("run.", nt, ".cmd");
            match config.get(k1.as_str()) {
                Some(v) => match v.as_str() {
                    Some(s) => Some(String::from_str(s)),
                    None => None,
                },
                None => {
                    let k2 = concat3("run.", t, ".cmd");
                    str_at_exec(config, k2.as_str())
                },
            }
        },
        None => None,
    };
    let cmd = match target_cmd {
        Some(c) => Some(c),
        None => {
            let k = concat3("run.", profile, ".cmd");
            match str_at_exec(config, k.as_str()) {
                Some(c) => Some(c),
                None => str_at_exec(config, "run.cmd"),
            }
        },
    };
    match cmd {
        Some(c) => {
            let t = trim_exec(c.as_str());
            if t.as_str().is_empty() {
                None
            } else {
                Some(substitute_run_vars(t.as_str(), profile, info))
            }
        },
        None => None,
    }
}

/// Kinds that build no runnable program.
pub open spec fn is_library_kind(kind: Seq<char>) -> bool {
    kind == "staticlib"@ || kind == "sharedlib"@ || kind == "efi"@ || kind == "elf"@
}

/// A project of a library kind cannot run unless it has a custom run command.
pub fn check_runnable(kind: &str, has_run_cmd: bool) -> (r: Result<(), String>)
    ensures
        r is Err <==> (!has_run_cmd && is_library_kind(trim(kind@))),
        r is Err ==> r->Err_0@ == "Cannot run library build"@,
{
    let k = trim_exec(kind);
    library_kind_check(k.as_str(), has_run_cmd)
}

fn library_kind_check(k: &str, has_run_cmd: bool) -> (r: Result<(), String>)
    ensures
        r is Err <==> (!has_run_cmd && is_library_kind(k@)),
        r is Err ==> r->Err_0@ == "Cannot run library build"@,
{
    if !has_run_cmd && (crate::text::str_eq(k, "staticlib") || crate::text::str_eq(k, "sharedlib") || crate::text::str_eq(k, "efi") || crate::text::str_eq(k, "elf")) {
        return Err(String::from_str("Cannot run library build"));
    }
    Ok(())
}

/// The arguments of the build `dcr run` starts: the profile flag, the target,
/// the workspace member and `--verbose`.
pub open spec fn args_for_build_spec(profile: Seq<char>, target: Option<Seq<char>>, workspace: Option<Seq<char>>, verbose: bool) -> Seq<
    Seq<char>,
> {
    seq!["--"@ + profile] + (match target {
        Some(t) => seq!["--target"@, t],
        None => Seq::empty(),
    }) + (match workspace {
        Some(w) => seq!["--workspace"@, w],
        None => Seq::empty(),
    }) + (if verbose {
        seq!["--verbose"@]
    } else {
        Seq::empty()
    })
}


/// `--` followed by a word that does not start with `--` reads back as the word.
proof fn lemma_trim_dashes(x: Seq<char>)
    requires
        !crate::text::has_prefix(x, "--"@),
    ensures
        crate::text::trim_start_matches("--"@ + x, "--"@) == x,
        crate::text::has_prefix("--"@ + x, "--"@),
{
    reveal_strlit("--");
    let s = "--"@ + x;
    assert(s.subrange(0, 2) =~= "--"@);
    assert(s.subrange(2, s.len() as int) =~= x);
    assert(crate::text::trim_start_matches(x, "--"@) == x);
}

/// The options word of a flag `--<c>`.
pub(crate) proof fn lemma_flag_word(c: Seq<char>)
    requires
        c.len() > 0,
        c[0] != '-',
    ensures
        crate::text::trim_start_matches("--"@ + c, "--"@) == c,
        crate::text::has_prefix("--"@ + c, "--"@),
{
    reveal_strlit("--");
    assert(!crate::text::has_prefix(c, "--"@)) by {
        if crate::text::has_prefix(c, "--"@) {
            assert(c.subrange(0, 2)[0] == '-');
        }
    }
    lemma_trim_dashes(c);
}

/// The words the build flags are compared with differ from the profiles.
proof fn lemma_flag_words_differ(p: Seq<char>)
    requires
        crate::config::is_profile(p),
    ensures
        p != "force"@,
        p != "clean"@,
        p != "verbose"@,
        p != "print-artifact-path"@,
        p != "workspace"@,
        p != "target"@,
        p.len() > 0,
        p[0] != '-',
{
    reveal_strlit("release");
    reveal_strlit("debug");
    reveal_strlit("force");
    reveal_strlit("clean");
    reveal_strlit("verbose");
    reveal_strlit("print-artifact-path");
    reveal_strlit("workspace");
    reveal_strlit("target");
    assert(p[0] == 'r' || p[0] == 'd');
    assert("force"@[0] == 'f');
    assert("clean"@[0] == 'c');
    assert("verbose"@[0] == 'v');
    assert("print-artifact-path"@[0] == 'p');
    assert("workspace"@[0] == 'w');
    assert("target"@[0] == 't');
}

/// No argument `dcr run` hands to the build is `--`.
proof fn lemma_no_double_dash(a: Seq<Seq<char>>)
    requires
        forall|i: int| 0 <= i < a.len() ==> #[trigger] a[i] != "--"@,
    ensures
        crate::cli::flags::dcr_part(a) == a,
{
}

/// What `dcr run` hands to `dcr build` is read back as the same profile,
/// target, workspace member and verbosity, with no other option set. (A
/// target or member named `--` would end the options early.)
pub proof fn lemma_run_passes_flags_to_build(
    profile: Seq<char>,
    target: Option<Seq<char>>,
    workspace: Option<Seq<char>>,
    verbose: bool,
)
    requires
        crate::config::is_profile(profile),
        target != Some("--"@),
        workspace != Some("--"@),
    ensures
        crate::cli::flags::parse_from(
            crate::cli::flags::dcr_part(args_for_build_spec(profile, target, workspace, verbose)),
            0,
            crate::cli::flags::initial_model(),
            false,
        ) == Ok::<crate::cli::flags::FlagsModel, crate::cli::flags::FlagsError>(
            crate::cli::flags::FlagsModel {
                profile,
                target,
                workspace,
                force: false,
                clean: false,
                verbose,
                print_artifact_path: false,
            },
        ),
{
    let a = args_for_build_spec(profile, target, workspace, verbose);
    reveal_strlit("--");
    reveal_strlit("debug");
    reveal_strlit("target");
    reveal_strlit("workspace");
    reveal_strlit("verbose");
    reveal_strlit("--target");
    reveal_strlit("--workspace");
    reveal_strlit("--verbose");
    reveal_strlit("force");
    reveal_strlit("clean");
    reveal_strlit("print-artifact-path");
    lemma_flag_words_differ(profile);
    lemma_flag_word(profile);
    lemma_flag_word("target"@);
    lemma_flag_word("workspace"@);
    lemma_flag_word("verbose"@);
    assert("--"@ + "target"@ =~= "--target"@);
    assert("--"@ + "workspace"@ =~= "--workspace"@);
    assert("--"@ + "verbose"@ =~= "--verbose"@);
    let tp = match target {
        Some(t) => seq!["--target"@, t],
        None => Seq::<Seq<char>>::empty(),
    };
    let wp = match workspace {
        Some(w) => seq!["--workspace"@, w],
        None => Seq::<Seq<char>>::empty(),
    };
    let vp = if verbose {
        seq!["--verbose"@]
    } else {
        Seq::<Seq<char>>::empty()
    };
    assert(a == seq!["--"@ + profile] + tp + wp + vp);
    assert forall|i: int| 0 <= i < a.len() implies #[trigger] a[i] != "--"@ by {
        if a[i] == "--"@ {
            assert(a[i].len() == 2);
        }
    }
    lemma_no_double_dash(a);
    let m0 = initial_model();
    let m1 = FlagsModel { profile, ..m0 };
    assert(parse_from(a, 0, m0, false) == parse_from(a, 1, m1, true));
    let i1: int = 1;
    let i2: int = if target is Some {
        i1 + 2
    } else {
        i1
    };
    let m2 = FlagsModel { target, ..m1 };
    if let Some(t) = target {
        assert(a[i1] == "--target"@);
        assert(a[i1 + 1] == t);
        assert(parse_from(a, i1, m1, true) == parse_from(a, i2, m2, true));
    } else {
        assert(m2 == m1);
    }
    let i3: int = if workspace is Some {
        i2 + 2
    } else {
        i2
    };
    let m3 = FlagsModel { workspace, ..m2 };
    if let Some(w) = workspace {
        assert(a[i2] == "--workspace"@);
        assert(a[i2 + 1] == w);
        assert(parse_from(a, i2, m2, true) == parse_from(a, i3, m3, true));
    } else {
        assert(m3 == m2);
    }
    let m4 = FlagsModel { verbose, ..m3 };
    if verbose {
        assert(a[i3] == "--verbose"@);
        assert(parse_from(a, i3, m3, true) == parse_from(a, i3 + 1, m4, true));
        assert(a.len() == i3 + 1);
        assert(parse_from(a, i3 + 1, m4, true) == Ok::<FlagsModel, crate::cli::flags::FlagsError>(m4));
    } else {
        assert(m4 == m3);
        assert(a.len() == i3);
        assert(parse_from(a, i3, m3, true) == Ok::<FlagsModel, crate::cli::flags::FlagsError>(m3));
    }
}

/// The build arguments for the flags `dcr run` was given.
pub fn args_for_build(flags: &BuildRunFlags) -> (r: Vec<String>)
    ensures
        views(r@) == args_for_build_spec(
            flags.profile@,
            crate::deps::opt_string_view(flags.target),
            crate::deps::opt_string_view(flags.workspace),
            flags.verbose,
        ),
{
    let mut args: Vec<String> = Vec::new();
    let p = concat2("--", flags.profile.as_str());
    push_str_item(&mut args, p.as_str());
    if let Some(t) = &flags.target {
        push_str_item(&mut args, "--target");
        push_str_item(&mut args, t.as_str());
    }
    if let Some(w) = &flags.workspace {
        push_str_item(&mut args, "--workspace");
        push_str_item(&mut args, w.as_str());
    }
    if flags.verbose {
        push_str_item(&mut args, "--verbose");
    }
    proof {
        let s = args_for_build_spec(
            flags.profile@,
            crate::deps::opt_string_view(flags.target),
            crate::deps::opt_string_view(flags.workspace),
            flags.verbose,
        );
        assert(views(args@) =~= s);
    }
    args
}

} // verus!
