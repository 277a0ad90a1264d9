//! Shared path helpers for the platform modules.
use vstd::prelude::*;

use crate::paths::{join, join_exec, has_extension_spec};
use crate::text::{chars_of, concat2, ends_with, has_suffix, lower, lower_exec, string_of};

verus! {

/// Separators trimmed from the end of a directory before joining.
pub open spec fn is_dir_sep(c: char) -> bool {
    c == '/' || c == '\\'
}

/// `dir` with every trailing `/` and `\` removed.
pub open spec fn trim_dir_seps_spec(dir: Seq<char>) -> Seq<char>
    decreases dir.len(),
{
    if dir.len() > 0 && is_dir_sep(dir.last()) {
        trim_dir_seps_spec(dir.drop_last())
    } else {
        dir
    }
}

/// `dir` with trailing `/` and `\` removed, joined with `file`.
pub open spec fn join_dir_spec(dir: Seq<char>, file: Seq<char>) -> Seq<char> {
    join(trim_dir_seps_spec(dir), file)
}

/// Suffixes that already mark a Windows executable or loadable image.
pub open spec fn has_exe_like_suffix(lower_name: Seq<char>) -> bool {
    ||| has_suffix(lower_name, ".exe"@)
    ||| has_suffix(lower_name, ".dll"@)
    ||| has_suffix(lower_name, ".sys"@)
    ||| has_suffix(lower_name, ".com"@)
    ||| has_suffix(lower_name, ".efi"@)
}

/// `name` unchanged when it already has an extension, else `name.exe`.
pub open spec fn with_exe_suffix_spec(name: Seq<char>) -> Seq<char> {
    if has_exe_like_suffix(lower(name)) || has_extension_spec(name) {
        name
    } else {
        name + ".exe"@
    }
}

/// `./target[/<triple>]/<profile>/<file>`.
pub open spec fn default_rel_spec(profile: Seq<char>, file: Seq<char>, triple: Option<Seq<char>>) -> Seq<char> {
    let base = match triple {
        Some(t) => join("./target"@, t),
        None => "./target"@,
    };
    join(join(base, profile), file)
}

/// Trims trailing `/` and `\` from `dir`.
pub fn trim_dir_seps(dir: &str) -> (r: String)
    ensures
        r@ == trim_dir_seps_spec(dir@),
{
    let v = chars_of(dir);
    let mut i: usize = v.len();
    assert(v@.subrange(0, v@.len() as int) =~= v@);
    while i > 0 && (v[i - 1] == '/' || v[i - 1] == '\\')
        invariant
            i <= v@.len(),
            trim_dir_seps_spec(dir@) == trim_dir_seps_spec(v@.subrange(0, i as int)),
            v@ == dir@,
        decreases i,
    {
        assert(v@.subrange(0, i as int).drop_last() =~= v@.subrange(0, i - 1));
        i = i - 1;
    }
    let w = crate::paths::sub_chars(&v, 0, i);
    string_of(&w)
}

/// Joins `file` onto `dir` after trimming trailing separators from `dir`.
pub fn join_dir(dir: &str, file: &str) -> (r: String)
    ensures
        r@ == join_dir_spec(dir@, file@),
{
    let trimmed = trim_dir_seps(dir);
    join_exec(trimmed.as_str(), file)
}

/// Appends `.exe` unless `name` already ends with a known image suffix or has an extension.
pub fn with_exe_suffix(name: &str) -> (r: String)
    ensures
        r@ == with_exe_suffix_spec(name@),
{
    let lower_name = lower_exec(name);
    let l = lower_name.as_str();
    if ends_with(l, ".exe") || ends_with(l, ".dll") || ends_with(l, ".sys") || ends_with(l, ".com")
        || ends_with(l, ".efi") || crate::paths::has_extension(name) {
        String::from_str(name)
    } else {
        concat2(name, ".exe")
    }
}

/// Default relative location of a binary.
pub fn default_bin_rel(profile: &str, name: &str, triple_segment: Option<&str>) -> (r: String)
    ensures
        r@ == default_rel_spec(profile@, name@, crate::platform::opt_view(triple_segment)),
{
    let base = match triple_segment {
        Some(t) => join_exec("./target", t),
        None => String::from_str("./target"),
    };
    let with_profile = join_exec(base.as_str(), profile);
    join_exec(with_profile.as_str(), name)
}

/// Default relative location of a library file.
pub fn default_lib_rel(profile: &str, file: &str, triple_segment: Option<&str>) -> (r: String)
    ensures
        r@ == default_rel_spec(profile@, file@, crate::platform::opt_view(triple_segment)),
{
    let base = match triple_segment {
        Some(t) => join_exec("./target", t),
        None => String::from_str("./target"),
    };
    let with_profile = join_exec(base.as_str(), profile);
    join_exec(with_profile.as_str(), file)
}


/// Adding the executable suffix twice is adding it once: a name that gets
/// `.exe` then ends in `.exe` and is left alone.
pub proof fn lemma_with_exe_suffix_idempotent(name: Seq<char>)
    ensures
        with_exe_suffix_spec(with_exe_suffix_spec(name)) == with_exe_suffix_spec(name),
{
    let r = with_exe_suffix_spec(name);
    if r != name {
        reveal_strlit(".exe");
        assert(r == name + ".exe"@);
        let l = lower(r);
        assert(l.len() == r.len());
        assert(l.subrange(l.len() - 4, l.len() as int) =~= ".exe"@) by {
            assert forall|i: int| 0 <= i < 4 implies #[trigger] l[l.len() - 4 + i] == ".exe"@[i] by {
                assert(r[r.len() - 4 + i] == ".exe"@[i]);
            }
        }
        assert(has_suffix(l, ".exe"@));
    }
}

} // verus!
