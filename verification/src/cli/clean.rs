//! `dcr clean`: which outputs to remove.
use vstd::prelude::*;

use crate::config::{is_profile, is_profile_exec};
use crate::text::{has_prefix, starts_with, str_eq, trim_start_matches, trim_start_matches_exec, views};

verus! {

/// What `dcr clean` removes: one profile's outputs or all, and whether the
/// workspace members are cleaned too.
#[derive(Debug)]
pub struct CleanFlags {
    pub profile: Option<String>,
    pub all: bool,
}

/// The outcome of reading clean arguments from position `i` on, with the
/// profile and `--all` found so far.
pub open spec fn clean_from(args: Seq<Seq<char>>, i: int, profile: Option<Seq<char>>, all: bool) -> Result<
    (Option<Seq<char>>, bool),
    Seq<char>,
>
    decreases args.len() - i,
{
    if i < 0 || i >= args.len() {
        Ok((profile, all))
    } else {
        let a = args[i];
        if a == "--all"@ {
            clean_from(args, i + 1, profile, true)
        } else if has_prefix(a, "--"@) && is_profile(trim_start_matches(a, "--"@)) {
            if profile is Some {
                Err("Duplicate profile flag"@)
            } else {
                clean_from(args, i + 1, Some(trim_start_matches(a, "--"@)), all)
            }
        } else {
            Err("Unknown argument"@)
        }
    }
}

/// Reads the arguments of `dcr clean`: `--all` and at most one profile flag.
pub fn parse_clean_flags(args: &[String]) -> (r: Result<CleanFlags, String>)
    ensures
        match clean_from(views(args@), 0, None, false) {
            Ok((p, all)) => r is Ok && crate::deps::opt_string_view(r->Ok_0.profile) == p && r->Ok_0.all == all,
            Err(m) => r is Err && r->Err_0@ == m,
        },
{
    proof {
        reveal_strlit("--");
    }
    let mut profile: Option<String> = None;
    let mut all = false;
    let mut i: usize = 0;
    while i < args.len()
        invariant
            i <= args@.len(),
            "--"@.len() > 0,
            clean_from(views(args@), 0, None, false) == clean_from(
                views(args@),
                i as int,
                crate::deps::opt_string_view(profile),
                all,
            ),
        decreases args.len() - i,
    {
        let a = args[i].as_str();
        assert(views(args@)[i as int] == a@);
        if str_eq(a, "--all") {
            all = true;
        } else {
            let candidate = trim_start_matches_exec(a, "--");
            if starts_with(a, "--") && is_profile_exec(candidate.as_str()) {
                if profile.is_some() {
                    return Err(String::from_str("Duplicate profile flag"));
                }
                profile = Some(candidate);
            } else {
                return Err(String::from_str("Unknown argument"));
            }
        }
        i = i + 1;
    }
    Ok(CleanFlags { profile, all })
}

/// What cleaning one project does, decided from the entries of its directory
/// and of its `target` directory.
#[derive(Debug, PartialEq, Eq)]
pub enum CleanAction {
    /// There is no `target` directory: nothing to remove.
    NoTarget,
    /// The profile's directory under `target` does not exist.
    NoProfileDir(String),
    /// Remove `target/<profile>`.
    RemoveProfile(String),
    /// Remove `target`.
    RemoveAll,
}

/// The project must have a manifest; without `target` there is nothing to do;
/// with a profile only `target/<profile>` is removed, when it exists;
/// otherwise all of `target`.
pub open spec fn clean_action_ok(
    r: Result<CleanAction, String>,
    entries: Seq<Seq<char>>,
    target_entries: Seq<Seq<char>>,
    profile: Option<Seq<char>>,
) -> bool {
    if !entries.contains("dcr.toml"@) {
        r is Err && r->Err_0@ == "dcr.toml file not found"@
    } else if !entries.contains("target"@) {
        r == Ok::<CleanAction, String>(CleanAction::NoTarget)
    } else {
        match profile {
            Some(p) => if !target_entries.contains(p) {
                r matches Ok(CleanAction::NoProfileDir(q)) && q@ == p
            } else {
                r matches Ok(CleanAction::RemoveProfile(q)) && q@ == p
            },
            None => r == Ok::<CleanAction, String>(CleanAction::RemoveAll),
        }
    }
}

fn has_entry(entries: &[String], name: &str) -> (r: bool)
    ensures
        r == views(entries@).contains(name@),
{
    let mut i: usize = 0;
    while i < entries.len()
        invariant
            i <= entries@.len(),
            forall|j: int| 0 <= j < i ==> views(entries@)[j] != name@,
        decreases entries.len() - i,
    {
        if str_eq(entries[i].as_str(), name) {
            assert(views(entries@)[i as int] == name@);
            return true;
        }
        i = i + 1;
    }
    false
}

/// Decides what cleaning a project does (see `clean_action_ok`).
pub fn clean_action(entries: &[String], target_entries: &[String], profile: Option<&str>) -> (r: Result<
    CleanAction,
    String,
>)
    ensures
        clean_action_ok(r, views(entries@), views(target_entries@), crate::platform::opt_view(profile)),
{
    if !has_entry(entries, "dcr.toml") {
        return Err(String::from_str("dcr.toml file not found"));
    }
    if !has_entry(entries, "target") {
        return Ok(CleanAction::NoTarget);
    }
    match profile {
        Some(p) => if !has_entry(target_entries, p) {
            Ok(CleanAction::NoProfileDir(String::from_str(p)))
        } else {
            Ok(CleanAction::RemoveProfile(String::from_str(p)))
        },
        None => Ok(CleanAction::RemoveAll),
    }
}

} // verus!
