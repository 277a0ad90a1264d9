//! `dcr --update`: which release asset replaces the running binary, and where
//! the download is staged.
use vstd::prelude::*;

use crate::paths::{with_extension, with_extension_exec};
use crate::text::{concat2, push_str_item, str_eq, trim_start_matches, trim_start_matches_exec, views};

verus! {

/// The asset names that fit a target: `dcr-<target>`, and for Windows MSVC
/// also the `.exe` file.
pub open spec fn asset_candidates_spec(target: Seq<char>) -> Seq<Seq<char>> {
    if target == "x86_64-pc-windows-msvc"@ {
        seq!["dcr-"@ + target, "dcr-x86_64-pc-windows-msvc.exe"@]
    } else {
        seq!["dcr-"@ + target]
    }
}

/// The release asset names to look for, in order.
pub fn asset_candidates(target: &str) -> (r: Vec<String>)
    ensures
        views(r@) == asset_candidates_spec(target@),
{
    let mut names: Vec<String> = Vec::new();
    let first = concat2("dcr-", target);
    push_str_item(&mut names, first.as_str());
    if str_eq(target, "x86_64-pc-windows-msvc") {
        push_str_item(&mut names, "dcr-x86_64-pc-windows-msvc.exe");
    }
    names
}

/// The release is the running version: its tag without leading `v`s.
pub open spec fn is_current_spec(tag: Seq<char>, current: Seq<char>) -> bool {
    trim_start_matches(tag, "v"@) == current
}

/// Whether the latest release is the version already running.
pub fn is_current_release(tag: &str, current: &str) -> (r: bool)
    ensures
        r == is_current_spec(tag@, current@),
{
    proof {
        reveal_strlit("v");
    }
    let t = trim_start_matches_exec(tag, "v");
    str_eq(t.as_str(), current)
}

/// The index of the first asset whose name is a candidate.
pub fn pick_asset(names: &[String], candidates: &[String]) -> (r: Option<usize>)
    ensures
        match r {
            Some(i) => i < names@.len() && views(candidates@).contains(names@[i as int]@) && forall|j: int|
                0 <= j < i ==> !views(candidates@).contains(#[trigger] views(names@)[j]),
            None => forall|j: int| 0 <= j < names@.len() ==> !views(candidates@).contains(#[trigger] views(names@)[j]),
        },
{
    let mut i: usize = 0;
    while i < names.len()
        invariant
            i <= names@.len(),
            forall|j: int| 0 <= j < i ==> !views(candidates@).contains(#[trigger] views(names@)[j]),
        decreases names.len() - i,
    {
        let mut k: usize = 0;
        while k < candidates.len()
            invariant
                k <= candidates@.len(),
                i < names@.len(),
                forall|j: int| 0 <= j < i ==> !views(candidates@).contains(#[trigger] views(names@)[j]),
                forall|m: int| 0 <= m < k ==> views(candidates@)[m] != names@[i as int]@,
            decreases candidates.len() - k,
        {
            if str_eq(candidates[k].as_str(), names[i].as_str()) {
                assert(views(candidates@)[k as int] == names@[i as int]@);
                return Some(i);
            }
            k = k + 1;
        }
        assert(!views(candidates@).contains(views(names@)[i as int]));
        i = i + 1;
    }
    None
}

/// Where the download is staged: the running binary's path with the extension
/// `new-<stamp>` (and `.exe` on Windows).
pub open spec fn temp_binary_path_spec(current_exe: Seq<char>, stamp: Seq<char>, windows: bool) -> Seq<char> {
    with_extension(current_exe, "new-"@ + stamp + if windows {
        ".exe"@
    } else {
        Seq::empty()
    })
}

/// The staging path for a download, given the time stamp in milliseconds as text.
pub fn temp_binary_path(current_exe: &str, stamp: &str, windows: bool) -> (r: String)
    ensures
        r@ == temp_binary_path_spec(current_exe@, stamp@, windows),
{
    let mut ext = concat2("new-", stamp);
    if windows {
        ext.append(".exe");
    }
    proof {
        assert(ext@ =~= "new-"@ + stamp@ + if windows {
            ".exe"@
        } else {
            Seq::<char>::empty()
        });
    }
    with_extension_exec(current_exe, ext.as_str())
}

} // verus!
