//! `dcr new` and `dcr init`: reading their arguments, the checks made before a
//! project is created, and the version control chosen for it.
use vstd::prelude::*;

use crate::deps::VcsKind;
use crate::text::{has_prefix, lower, starts_with, str_eq, views};
use crate::validation::package_name_check;

verus! {

/// Why a project cannot be created.
#[derive(Debug, PartialEq, Eq)]
pub enum ProjectError {
    /// `--vcs` was the last argument.
    MissingVcsValue,
    /// `dcr new` was given no name.
    MissingName,
    /// More arguments than the command takes.
    ExtraArgs,
    /// `dcr init` in a directory that is not empty.
    DirNotEmpty,
    /// The name is not a valid package name; the reason.
    InvalidName(String),
    /// `dcr new` where a directory of that name exists.
    AlreadyExists,
}

/// The message of each error.
pub open spec fn project_error_message(e: ProjectError) -> Seq<char> {
    match e {
        ProjectError::MissingVcsValue => "--vcs requires a value"@,
        ProjectError::MissingName => "Project name not specified"@,
        ProjectError::ExtraArgs => "Command does not support additional arguments"@,
        ProjectError::DirNotEmpty => "Directory not empty"@,
        ProjectError::InvalidName(e) => e@,
        ProjectError::AlreadyExists => "Directory already exists"@,
    }
}

impl ProjectError {
    /// The message shown for the error.
    pub fn message(&self) -> (r: String)
        ensures
            r@ == project_error_message(*self),
    {
        match self {
            ProjectError::MissingVcsValue => String::from_str("--vcs requires a value"),
            ProjectError::MissingName => String::from_str("Project name not specified"),
            ProjectError::ExtraArgs => String::from_str("Command does not support additional arguments"),
            ProjectError::DirNotEmpty => String::from_str("Directory not empty"),
            ProjectError::InvalidName(e) => e.clone(),
            ProjectError::AlreadyExists => String::from_str("Directory already exists"),
        }
    }
}

/// Reads the arguments from position `i` on: `--vcs <v>` and `--vcs=<v>` set
/// the version control (the last one wins); the others are kept in order.
/// `Err` when `--vcs` has no value after it.
pub open spec fn vcs_args_from(args: Seq<Seq<char>>, i: int, vcs: Option<Seq<char>>, rest: Seq<Seq<char>>) -> Result<
    (Option<Seq<char>>, Seq<Seq<char>>),
    (),
>
    decreases args.len() - i,
{
    if i < 0 || i >= args.len() {
        Ok((vcs, rest))
    } else if args[i] == "--vcs"@ {
        if i + 1 >= args.len() {
            Err(())
        } else {
            vcs_args_from(args, i + 2, Some(args[i + 1]), rest)
        }
    } else if has_prefix(args[i], "--vcs="@) {
        vcs_args_from(args, i + 1, Some(args[i].skip(6)), rest)
    } else {
        vcs_args_from(args, i + 1, vcs, rest.push(args[i]))
    }
}

/// The optional view of an optional string.
pub open spec fn opt_str(o: Option<String>) -> Option<Seq<char>> {
    match o {
        Some(s) => Some(s@),
        None => None,
    }
}

/// Splits the `--vcs` setting from the other arguments.
pub fn parse_vcs_args(args: &[String]) -> (r: Result<(Option<String>, Vec<String>), ProjectError>)
    ensures
        match vcs_args_from(views(args@), 0, None, Seq::empty()) {
            Ok((v, rest)) => r is Ok && opt_str(r->Ok_0.0) == v && views(r->Ok_0.1@) == rest,
            Err(_) => r == Err::<(Option<String>, Vec<String>), ProjectError>(ProjectError::MissingVcsValue),
        },
{
    proof {
        reveal_strlit("--vcs");
        reveal_strlit("--vcs=");
    }
    let ghost a = views(args@);
    let mut vcs: Option<String> = None;
    let mut rest: Vec<String> = Vec::new();
    let mut i: usize = 0;
    assert(views(rest@) =~= Seq::<Seq<char>>::empty());
    while i < args.len()
        invariant
            a == views(args@),
            i <= args@.len(),
            "--vcs="@.len() == 6,
            vcs_args_from(a, 0, None, Seq::empty()) == vcs_args_from(a, i as int, opt_str(vcs), views(rest@)),
        decreases args.len() - i,
    {
        let arg = args[i].as_str();
        if str_eq(arg, "--vcs") {
            if i + 1 >= args.len() {
                return Err(ProjectError::MissingVcsValue);
            }
            vcs = Some(args[i + 1].clone());
            i = i + 2;
        } else if starts_with(arg, "--vcs=") {
            let v = crate::text::chars_of(arg);
            let w = crate::paths::sub_chars(&v, 6, v.len());
            assert(w@ =~= arg@.skip(6));
            vcs = Some(crate::text::string_of(&w));
            i = i + 1;
        } else {
            let ghost before = views(rest@);
            rest.push(args[i].clone());
            assert(views(rest@) =~= before.push(arg@));
            i = i + 1;
        }
    }
    Ok((vcs, rest))
}

/// The checks of `dcr new` before anything is created: the arguments, exactly
/// one name, a valid package name, and no existing entry of that name in the
/// current directory. The result is the name and the `--vcs` setting.
pub open spec fn new_check_spec(args: Seq<Seq<char>>, existing: Seq<Seq<char>>) -> Result<
    (Seq<char>, Option<Seq<char>>),
    Option<Seq<char>>,
> {
    match vcs_args_from(args, 0, None, Seq::empty()) {
        Err(_) => Err(None),
        Ok((vcs, rest)) => if rest.len() == 0 {
            Err(None)
        } else if rest.len() > 1 {
            Err(None)
        } else {
            match package_name_check(rest[0]) {
                Err(e) => Err(Some(e)),
                Ok(_) => if existing.contains(rest[0]) {
                    Err(None)
                } else {
                    Ok((rest[0], vcs))
                },
            }
        },
    }
}

/// The error of `dcr new` for the given arguments and directory entries.
pub open spec fn new_error_spec(args: Seq<Seq<char>>, existing: Seq<Seq<char>>, e: ProjectError) -> bool {
    match vcs_args_from(args, 0, None, Seq::empty()) {
        Err(_) => e == ProjectError::MissingVcsValue,
        Ok((vcs, rest)) => if rest.len() == 0 {
            e == ProjectError::MissingName
        } else if rest.len() > 1 {
            e == ProjectError::ExtraArgs
        } else {
            match package_name_check(rest[0]) {
                Err(m) => e matches ProjectError::InvalidName(x) && x@ == "Invalid config: "@ + m,
                Ok(_) => e == ProjectError::AlreadyExists,
            }
        },
    }
}

fn contains_string(items: &[String], s: &str) -> (r: bool)
    ensures
        r == views(items@).contains(s@),
{
    let mut i: usize = 0;
    while i < items.len()
        invariant
            i <= items@.len(),
            forall|j: int| 0 <= j < i ==> views(items@)[j] != s@,
        decreases items.len() - i,
    {
        if str_eq(items[i].as_str(), s) {
            assert(views(items@)[i as int] == s@);
            return true;
        }
        i = i + 1;
    }
    false
}

/// Checks the arguments of `dcr new` against the entries of the current
/// directory; the project name and the `--vcs` setting.
pub fn check_new(args: &[String], existing: &[String]) -> (r: Result<(String, Option<String>), ProjectError>)
    ensures
        match new_check_spec(views(args@), views(existing@)) {
            Ok((name, vcs)) => r is Ok && r->Ok_0.0@ == name && opt_str(r->Ok_0.1) == vcs,
            Err(_) => r is Err && new_error_spec(views(args@), views(existing@), r->Err_0),
        },
{
    let (vcs, rest) = match parse_vcs_args(args) {
        Ok(p) => p,
        Err(e) => return Err(e),
    };
    if rest.len() == 0 {
        return Err(ProjectError::MissingName);
    }
    if rest.len() > 1 {
        return Err(ProjectError::ExtraArgs);
    }
    let name = rest[0].clone();
    assert(name@ == views(rest@)[0]);
    match crate::validation::validate_package_name(name.as_str()) {
        Ok(_) => {},
        Err(e) => {
            proof {
                reveal_strlit("Invalid config: ");
            }
            return Err(ProjectError::InvalidName(e.message()));
        },
    }
    if contains_string(existing, name.as_str()) {
        return Err(ProjectError::AlreadyExists);
    }
    Ok((name, vcs))
}

/// The checks of `dcr init`: the arguments, no extra ones, an empty directory
/// and a valid package name (the directory's name). The result is the `--vcs`
/// setting.
pub open spec fn init_check_spec(args: Seq<Seq<char>>, n_entries: nat, name: Seq<char>) -> Result<
    Option<Seq<char>>,
    (),
> {
    match vcs_args_from(args, 0, None, Seq::empty()) {
        Err(_) => Err(()),
        Ok((vcs, rest)) => if rest.len() > 0 || n_entries > 0 {
            Err(())
        } else {
            match package_name_check(name) {
                Err(_) => Err(()),
                Ok(_) => Ok(vcs),
            }
        },
    }
}

/// The error of `dcr init`, checked in the order above.
pub open spec fn init_error_spec(args: Seq<Seq<char>>, n_entries: nat, name: Seq<char>, e: ProjectError) -> bool {
    match vcs_args_from(args, 0, None, Seq::empty()) {
        Err(_) => e == ProjectError::MissingVcsValue,
        Ok((vcs, rest)) => if rest.len() > 0 {
            e == ProjectError::ExtraArgs
        } else if n_entries > 0 {
            e == ProjectError::DirNotEmpty
        } else {
            match package_name_check(name) {
                Err(m) => e matches ProjectError::InvalidName(x) && x@ == "Invalid config: "@ + m,
                Ok(_) => false,
            }
        },
    }
}

/// Checks the arguments of `dcr init` for a directory with `n_entries` entries
/// named `name`; the `--vcs` setting.
pub fn check_init(args: &[String], n_entries: usize, name: &str) -> (r: Result<Option<String>, ProjectError>)
    ensures
        match init_check_spec(views(args@), n_entries as nat, name@) {
            Ok(vcs) => r is Ok && opt_str(r->Ok_0) == vcs,
            Err(_) => r is Err && init_error_spec(views(args@), n_entries as nat, name@, r->Err_0),
        },
{
    let (vcs, rest) = match parse_vcs_args(args) {
        Ok(p) => p,
        Err(e) => return Err(e),
    };
    if rest.len() > 0 {
        return Err(ProjectError::ExtraArgs);
    }
    if n_entries > 0 {
        return Err(ProjectError::DirNotEmpty);
    }
    match crate::validation::validate_package_name(name) {
        Ok(_) => {},
        Err(e) => {
            proof {
                reveal_strlit("Invalid config: ");
            }
            return Err(ProjectError::InvalidName(e.message()));
        },
    }
    Ok(vcs)
}

/// The version control of a new project: the one asked for, else none inside
/// an existing repository, else Git.
pub open spec fn choose_vcs_spec(vcs: Option<Seq<char>>, inside_repo: bool) -> Result<VcsKind, Seq<char>> {
    match vcs {
        Some(v) => if lower(v) == "git"@ {
            Ok(VcsKind::Git)
        } else if lower(v) == "none"@ {
            Ok(VcsKind::NoVcs)
        } else {
            Err("Unknown VCS: "@ + v)
        },
        None => if inside_repo {
            Ok(VcsKind::NoVcs)
        } else {
            Ok(VcsKind::Git)
        },
    }
}

/// Chooses the version control of a new project (see `choose_vcs_spec`).
pub fn choose_vcs(vcs: Option<&str>, inside_repo: bool) -> (r: Result<VcsKind, String>)
    ensures
        match choose_vcs_spec(crate::platform::opt_view(vcs), inside_repo) {
            Ok(k) => r == Ok::<VcsKind, String>(k),
            Err(m) => r is Err && r->Err_0@ == m,
        },
{
    match vcs {
        Some(v) => VcsKind::parse(v),
        None => if inside_repo {
            Ok(VcsKind::NoVcs)
        } else {
            Ok(VcsKind::Git)
        },
    }
}

} // verus!
