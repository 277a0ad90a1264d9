//! Disk images (`[archive]`): the FAT variant, the volume label, where each
//! layout entry is copied inside the image, and the offset arithmetic of a
//! volume placed after a boot area.
use vstd::prelude::*;
use vstd::utf8::encode_utf8;

use crate::paths::{file_name, parent_of_named, spans};
use crate::text::{has_char, lower, lower_exec, push_str_item, replace_all, str_eq, views};

verus! {

/// Image size when `size` is not given: a 1.44 MB floppy.
pub const DEFAULT_IMAGE_SIZE: u64 = 1474560;

/// The FAT variants an image can be formatted with.
#[derive(Debug, Clone, Copy, PartialEq, Eq, Structural)]
pub enum FatKind {
    Fat12,
    Fat16,
    Fat32,
}

/// The variant named by `format` (case-insensitive); `None` lets the
/// formatter choose from the volume size.
pub open spec fn fat_kind_spec(format: Seq<char>) -> Option<FatKind> {
    let l = lower(format);
    if l == "fat12"@ {
        Some(FatKind::Fat12)
    } else if l == "fat16"@ {
        Some(FatKind::Fat16)
    } else if l == "fat32"@ {
        Some(FatKind::Fat32)
    } else {
        None
    }
}

/// The FAT variant named by `format`. Names are compared after ASCII
/// lower-casing: no non-ASCII character lower-cases to a letter of these names.
pub fn fat_kind(format: &str) -> (r: Option<FatKind>)
    ensures
        r == fat_kind_spec(format@),
{
    let l = lower_exec(format);
    if str_eq(l.as_str(), "fat12") {
        Some(FatKind::Fat12)
    } else if str_eq(l.as_str(), "fat16") {
        Some(FatKind::Fat16)
    } else if str_eq(l.as_str(), "fat32") {
        Some(FatKind::Fat32)
    } else {
        None
    }
}

/// The 11-byte volume label: the first bytes of the label (`VOLUME` when none
/// is set), padded with spaces.
pub open spec fn volume_label_spec(label: Option<Seq<char>>) -> Seq<u8> {
    let b = match label {
        Some(l) => encode_utf8(l),
        None => encode_utf8("VOLUME"@),
    };
    let n = if b.len() < 11 {
        b.len() as int
    } else {
        11
    };
    b.take(n) + Seq::new((11 - n) as nat, |i: int| 32u8)
}

/// The volume label bytes.
pub fn volume_label(label: Option<&str>) -> (r: Vec<u8>)
    ensures
        r@ == volume_label_spec(crate::platform::opt_view(label)),
        r@.len() == 11,
{
    let l: &str = match label {
        Some(l) => l,
        None => "VOLUME",
    };
    let b = l.as_bytes();
    let n: usize = if b.len() < 11 {
        b.len()
    } else {
        11
    };
    let mut out: Vec<u8> = Vec::new();
    let mut i: usize = 0;
    while i < 11
        invariant
            n <= 11,
            n <= b@.len(),
            i <= 11,
            out@.len() == i,
            forall|j: int| 0 <= j < i && j < n ==> out@[j] == b@[j],
            forall|j: int| n <= j < i ==> out@[j] == 32u8,
        decreases 11 - i,
    {
        if i < n {
            out.push(b[i]);
        } else {
            out.push(32u8);
        }
        i = i + 1;
    }
    assert(out@ =~= volume_label_spec(crate::platform::opt_view(label)));
    out
}

/// A layout source with a wildcard (`*` or `?`) is expanded as a glob.
pub open spec fn is_glob_source_spec(pattern: Seq<char>) -> bool {
    has_char(pattern, '*') || has_char(pattern, '?')
}

/// Whether a layout source is a glob.
pub fn is_glob_source(pattern: &str) -> (r: bool)
    ensures
        r == is_glob_source_spec(pattern@),
{
    crate::text::has_char_exec(pattern, '*') || crate::text::has_char_exec(pattern, '?')
}

/// `{profile}` replaced by the profile name.
pub open spec fn with_profile_spec(s: Seq<char>, profile: Seq<char>) -> Seq<char> {
    replace_all(s, "{profile}"@, profile)
}

/// Replaces `{profile}` in a configured path.
pub fn with_profile(s: &str, profile: &str) -> (r: String)
    ensures
        r@ == with_profile_spec(s@, profile@),
{
    proof {
        reveal_strlit("{profile}");
    }
    crate::text::replace_exec(s, "{profile}", profile)
}

/// The non-empty `/`-separated parts of `s` from position `i` on, `cur` being
/// the part read so far.
pub open spec fn parts_from(s: Seq<char>, i: int, done: Seq<Seq<char>>, cur: Seq<char>) -> Seq<Seq<char>>
    decreases s.len() - i,
{
    if i < 0 || i >= s.len() {
        if cur.len() > 0 {
            done.push(cur)
        } else {
            done
        }
    } else if s[i] == '/' {
        parts_from(s, i + 1, if cur.len() > 0 {
            done.push(cur)
        } else {
            done
        }, Seq::empty())
    } else {
        parts_from(s, i + 1, done, cur.push(s[i]))
    }
}

/// The non-empty `/`-separated parts of `s`.
pub open spec fn slash_parts(s: Seq<char>) -> Seq<Seq<char>> {
    parts_from(s, 0, Seq::empty(), Seq::empty())
}

/// A single, named path component.
pub open spec fn is_component(p: Seq<char>) -> bool {
    p.len() > 0 && !has_char(p, '/')
}

proof fn lemma_parts_from_components(s: Seq<char>, i: int, done: Seq<Seq<char>>, cur: Seq<char>)
    requires
        0 <= i,
        forall|k: int| 0 <= k < done.len() ==> is_component(#[trigger] done[k]),
        !has_char(cur, '/'),
    ensures
        forall|k: int|
            0 <= k < parts_from(s, i, done, cur).len() ==> is_component(#[trigger] parts_from(s, i, done, cur)[k]),
    decreases s.len() - i,
{
    if i >= s.len() {
        let r = parts_from(s, i, done, cur);
        assert forall|k: int| 0 <= k < r.len() implies is_component(#[trigger] r[k]) by {
            if k < done.len() {
                assert(r[k] == done[k]);
            } else {
                assert(r[k] == cur);
            }
        }
    } else if s[i] == '/' {
        let d = if cur.len() > 0 {
            done.push(cur)
        } else {
            done
        };
        assert forall|k: int| 0 <= k < d.len() implies is_component(#[trigger] d[k]) by {
            if k < done.len() {
                assert(d[k] == done[k]);
            }
        }
        assert(!has_char(Seq::<char>::empty(), '/'));
        lemma_parts_from_components(s, i + 1, d, Seq::empty());
        assert(parts_from(s, i, done, cur) == parts_from(s, i + 1, d, Seq::empty()));
    } else {
        let c2 = cur.push(s[i]);
        assert(!has_char(c2, '/')) by {
            if has_char(c2, '/') {
                let j = choose|j: int| 0 <= j < c2.len() && c2[j] == '/';
                if j < cur.len() {
                    assert(cur[j] == '/');
                }
            }
        }
        lemma_parts_from_components(s, i + 1, done, c2);
        assert(parts_from(s, i, done, cur) == parts_from(s, i + 1, done, c2));
    }
}

/// Every directory a layout entry goes into is created one component at a
/// time: each part is non-empty and holds no `/`.
pub proof fn lemma_slash_parts_are_components(s: Seq<char>)
    ensures
        forall|k: int| 0 <= k < slash_parts(s).len() ==> is_component(#[trigger] slash_parts(s)[k]),
{
    assert(!has_char(Seq::<char>::empty(), '/'));
    lemma_parts_from_components(s, 0, Seq::empty(), Seq::empty());
}

/// Splits `s` at `/`, dropping empty parts.
pub fn slash_parts_exec(s: &str) -> (r: Vec<String>)
    ensures
        views(r@) == slash_parts(s@),
{
    let v = crate::text::chars_of(s);
    let mut out: Vec<String> = Vec::new();
    let mut cur: Vec<char> = Vec::new();
    let mut i: usize = 0;
    assert(views(out@) =~= Seq::<Seq<char>>::empty());
    while i < v.len()
        invariant
            v@ == s@,
            i <= v@.len(),
            slash_parts(s@) == parts_from(s@, i as int, views(out@), cur@),
        decreases v.len() - i,
    {
        if v[i] == '/' {
            if cur.len() > 0 {
                let part = crate::text::string_of(&cur);
                let ghost before = views(out@);
                out.push(part);
                assert(views(out@) =~= before.push(cur@));
            }
            cur = Vec::new();
            assert(cur@ =~= Seq::<char>::empty());
        } else {
            cur.push(v[i]);
        }
        i = i + 1;
    }
    if cur.len() > 0 {
        let part = crate::text::string_of(&cur);
        let ghost before = views(out@);
        out.push(part);
        assert(views(out@) =~= before.push(cur@));
    }
    out
}

/// Where a file of a layout entry goes in the image: the directories to
/// create or enter, and the file name. A non-glob entry whose `to` does not end
/// with `/` and whose last component holds a `.` names the file itself;
/// otherwise `to` is the directory and the file keeps its name.
pub open spec fn layout_dest_spec(to: Seq<char>, is_glob: bool, file: Seq<char>) -> (Seq<Seq<char>>, Seq<char>) {
    let renames = !is_glob && !(to.len() > 0 && to.last() == '/') && match file_name(to) {
        Some(n) => has_char(n, '.'),
        None => false,
    };
    if renames {
        (slash_parts(parent_of_named(to)), file_name(to)->Some_0)
    } else {
        (slash_parts(to), file)
    }
}

/// The destination of a layout file (see `layout_dest_spec`).
pub fn layout_dest(to: &str, is_glob: bool, file: &str) -> (r: (Vec<String>, String))
    ensures
        (views(r.0@), r.1@) == layout_dest_spec(to@, is_glob, file@),
{
    let ends_slash = crate::text::ends_with(to, "/");
    proof {
        reveal_strlit("/");
        assert("/"@ =~= seq!['/']);
        if to@.len() > 0 && to@.last() == '/' {
            assert(to@.subrange(to@.len() - 1, to@.len() as int) =~= "/"@);
        }
        if ends_slash {
            assert(to@.subrange(to@.len() - 1, to@.len() as int)[0] == to@[to@.len() - 1]);
        }
        assert(ends_slash == (to@.len() > 0 && to@.last() == '/'));
    }
    if !is_glob && !ends_slash {
        match crate::paths::file_name_exec(to) {
            Some(n) => {
                if crate::text::has_char_exec(n.as_str(), '.') {
                    assert(spans(to@).len() > 0);
                    let p = crate::paths::parent_of_named_exec(to);
                    let dirs = slash_parts_exec(p.as_str());
                    return (dirs, n);
                }
            },
            None => {},
        }
    }
    (slash_parts_exec(to), crate::text::own(file))
}

/// The position in the underlying file for a position in the volume.
pub fn inner_position(pos: u64, offset: u64) -> (r: u64)
    requires
        pos + offset <= u64::MAX,
    ensures
        r == pos + offset,
{
    pos + offset
}

/// The position in the volume for a position in the underlying file: 0
/// inside the boot area.
pub fn volume_position(actual: u64, offset: u64) -> (r: u64)
    ensures
        r == if actual < offset {
            0
        } else {
            actual - offset
        },
{
    if actual < offset {
        0
    } else {
        actual - offset
    }
}


/// The number part and the unit part of an image size: the digits and dots,
/// and every other character, each in order.
pub open spec fn size_parts_spec(s: Seq<char>) -> (Seq<char>, Seq<char>) {
    (
        s.filter(|c: char| crate::text::is_ascii_digit(c) || c == '.'),
        s.filter(|c: char| !(crate::text::is_ascii_digit(c) || c == '.')),
    )
}

/// Splits an image size such as `1.5M` into its number and unit parts.
pub fn size_parts(s: &str) -> (r: (String, String))
    ensures
        (r.0@, r.1@) == size_parts_spec(s@),
{
    let v = crate::text::chars_of(s);
    let mut num = String::new();
    let mut unit = String::new();
    let mut i: usize = 0;
    proof {
        reveal_with_fuel(Seq::filter, 1);
    }
    assert(v@.take(0) =~= Seq::<char>::empty());
    while i < v.len()
        invariant
            i <= v@.len(),
            v@ == s@,
            (num@, unit@) == size_parts_spec(v@.take(i as int)),
        decreases v.len() - i,
    {
        assert(v@.take(i + 1).drop_last() =~= v@.take(i as int));
        proof {
            reveal_with_fuel(Seq::filter, 1);
        }
        let c = v[i];
        if ('0' <= c && c <= '9') || c == '.' {
            crate::text::push_char(&mut num, c);
        } else {
            crate::text::push_char(&mut unit, c);
        }
        i = i + 1;
    }
    assert(v@.take(v@.len() as int) =~= v@);
    (num, unit)
}

/// The factor of a size unit (trimmed, in lower case): `k`/`kb` 1024,
/// `m`/`mb` 1024², `g`/`gb` 1024³, none 1; any other unit is refused.
pub open spec fn unit_factor_spec(unit: Seq<char>) -> Result<u64, Seq<char>> {
    let u = lower(crate::text::trim(unit));
    if u == "k"@ || u == "kb"@ {
        Ok(1024)
    } else if u == "m"@ || u == "mb"@ {
        Ok(1048576)
    } else if u == "g"@ || u == "gb"@ {
        Ok(1073741824)
    } else if u.len() == 0 {
        Ok(1)
    } else {
        Err("unknown unit: "@ + u)
    }
}

/// The factor of a size unit (see `unit_factor_spec`).
pub fn unit_factor(unit: &str) -> (r: Result<u64, String>)
    ensures
        match unit_factor_spec(unit@) {
            Ok(f) => r == Ok::<u64, String>(f),
            Err(m) => r is Err && r->Err_0@ == m,
        },
{
    let t = crate::text::trim_exec(unit);
    let l = lower_exec(t.as_str());
    let u = l.as_str();
    if str_eq(u, "k") || str_eq(u, "kb") {
        Ok(1024)
    } else if str_eq(u, "m") || str_eq(u, "mb") {
        Ok(1048576)
    } else if str_eq(u, "g") || str_eq(u, "gb") {
        Ok(1073741824)
    } else if u.is_empty() {
        Ok(1)
    } else {
        Err(crate::text::concat2("unknown unit: ", u))
    }
}

} // verus!
