//! `dcr lint`: the directories scanned, the `clang-tidy` command line and the
//! issue lines read from its output.
use vstd::prelude::*;

use crate::build::settings::rooted;
use crate::paths::join;
use crate::text::{contains, contains_str, push_str_item, views};

verus! {

/// The directories scanned: each `build.roots` entry relative to the project
/// root, or `<root>/src` when there are none and `src` is not disabled.
pub open spec fn lint_roots_spec(roots: Seq<Seq<char>>, src_disable: bool, root: Seq<char>) -> Seq<Seq<char>> {
    if !src_disable && roots.len() == 0 {
        seq![join(root, "src"@)]
    } else {
        roots.map_values(|r: Seq<char>| rooted(root, r))
    }
}

/// The directories `dcr lint` scans.
pub fn lint_roots(roots: &[String], src_disable: bool, root: &str) -> (r: Vec<String>)
    ensures
        views(r@) == lint_roots_spec(views(roots@), src_disable, root@),
{
    proof {
        reveal_strlit("src");
    }
    let mut out: Vec<String> = Vec::new();
    if !src_disable && roots.len() == 0 {
        let s = crate::paths::join_exec(root, "src");
        push_str_item(&mut out, s.as_str());
        assert(views(out@) =~= seq![join(root@, "src"@)]);
        return out;
    }
    let mut i: usize = 0;
    while i < roots.len()
        invariant
            i <= roots@.len(),
            views(out@) == views(roots@).take(i as int).map_values(|r: Seq<char>| rooted(root@, r)),
        decreases roots.len() - i,
    {
        let raw = roots[i].as_str();
        let d = if crate::paths::is_absolute_exec(raw) {
            crate::text::own(raw)
        } else {
            crate::paths::join_exec(root, raw)
        };
        let ghost before = views(out@);
        push_str_item(&mut out, d.as_str());
        assert(views(roots@).take(i + 1).map_values(|r: Seq<char>| rooted(root@, r)) =~= views(roots@).take(
            i as int,
        ).map_values(|r: Seq<char>| rooted(root@, r)).push(rooted(root@, raw@)));
        i = i + 1;
    }
    assert(views(roots@).take(roots@.len() as int) =~= views(roots@));
    out
}

/// The `clang-tidy` arguments for one file.
pub open spec fn tidy_args_spec(fix: bool, file: Seq<char>) -> Seq<Seq<char>> {
    (if fix {
        seq!["--fix"@]
    } else {
        Seq::empty()
    }) + seq!["--quiet"@, file]
}

/// The `clang-tidy` arguments for one file.
pub fn tidy_args(fix: bool, file: &str) -> (r: Vec<String>)
    ensures
        views(r@) == tidy_args_spec(fix, file@),
{
    let mut out: Vec<String> = Vec::new();
    if fix {
        push_str_item(&mut out, "--fix");
    }
    push_str_item(&mut out, "--quiet");
    push_str_item(&mut out, file);
    assert(views(out@) =~= tidy_args_spec(fix, file@));
    out
}

/// The lines of a text as `str::lines` gives them: split after each `\n`,
/// that `\n` and a `\r` just before it removed, no empty line after a final
/// `\n`. `cur` is the line read so far from position `i`.
pub open spec fn lines_from(s: Seq<char>, i: int, done: Seq<Seq<char>>, cur: Seq<char>) -> Seq<Seq<char>>
    decreases s.len() - i,
{
    if i < 0 || i >= s.len() {
        if cur.len() > 0 {
            done.push(cur)
        } else {
            done
        }
    } else if s[i] == '\n' {
        let line = if cur.len() > 0 && cur.last() == '\r' {
            cur.drop_last()
        } else {
            cur
        };
        lines_from(s, i + 1, done.push(line), Seq::empty())
    } else {
        lines_from(s, i + 1, done, cur.push(s[i]))
    }
}

/// The lines of a text.
pub open spec fn lines_spec(s: Seq<char>) -> Seq<Seq<char>> {
    lines_from(s, 0, Seq::empty(), Seq::empty())
}

/// Splits a text into lines (see `lines_from`).
pub fn lines(s: &str) -> (r: Vec<String>)
    ensures
        views(r@) == lines_spec(s@),
{
    let v = crate::text::chars_of(s);
    let mut out: Vec<String> = Vec::new();
    let mut cur: Vec<char> = Vec::new();
    let mut i: usize = 0;
    assert(views(out@) =~= Seq::<Seq<char>>::empty());
    while i < v.len()
        invariant
            v@ == s@,
            i <= v@.len(),
            lines_spec(s@) == lines_from(s@, i as int, views(out@), cur@),
        decreases v.len() - i,
    {
        let c = v[i];
        if c == '\n' {
            let mut n = cur.len();
            if n > 0 && cur[n - 1] == '\r' {
                n = n - 1;
            }
            let w = crate::paths::sub_chars(&cur, 0, n);
            let line = crate::text::string_of(&w);
            proof {
                let expect = if cur@.len() > 0 && cur@.last() == '\r' {
                    cur@.drop_last()
                } else {
                    cur@
                };
                assert(line@ =~= expect);
            }
            let ghost before = views(out@);
            out.push(line);
            assert(views(out@) =~= before.push(line@));
            cur = Vec::new();
            assert(cur@ =~= Seq::<char>::empty());
        } else {
            cur.push(c);
        }
        i = i + 1;
    }
    if cur.len() > 0 {
        let line = crate::text::string_of(&cur);
        let ghost before = views(out@);
        out.push(line);
        assert(views(out@) =~= before.push(cur@));
    }
    out
}

/// A line reporting a warning or an error.
pub open spec fn is_issue_line(l: Seq<char>) -> bool {
    contains(l, "warning:"@) || contains(l, "error:"@)
}

/// The issue lines among `lines`, in order.
pub open spec fn issue_lines_of(lines: Seq<Seq<char>>) -> Seq<Seq<char>>
    decreases lines.len(),
{
    if lines.len() == 0 {
        Seq::empty()
    } else {
        let rest = issue_lines_of(lines.drop_last());
        if is_issue_line(lines.last()) {
            rest.push(lines.last())
        } else {
            rest
        }
    }
}

/// The lines of a `clang-tidy` output that report a warning or an error.
pub fn issue_lines(output: &str) -> (r: Vec<String>)
    ensures
        views(r@) == issue_lines_of(lines_spec(output@)),
{
    let all = lines(output);
    let ghost ls = views(all@);
    let mut out: Vec<String> = Vec::new();
    let mut i: usize = 0;
    assert(views(out@) =~= issue_lines_of(ls.take(0)));
    while i < all.len()
        invariant
            ls == views(all@),
            i <= all@.len(),
            views(out@) == issue_lines_of(ls.take(i as int)),
        decreases all.len() - i,
    {
        let l = all[i].as_str();
        assert(ls.take(i + 1).drop_last() =~= ls.take(i as int));
        assert(ls.take(i + 1).last() == l@);
        if contains_str(l, "warning:") || contains_str(l, "error:") {
            let ghost before = views(out@);
            push_str_item(&mut out, l);
        }
        i = i + 1;
    }
    assert(ls.take(all@.len() as int) =~= ls);
    out
}

} // verus!
