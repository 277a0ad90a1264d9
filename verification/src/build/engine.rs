//! Pieces of the build driver that decide paths: absolute include flags,
//! the `target` directory a build writes into, and the library files a
//! package exports.
use vstd::prelude::*;

use crate::build::builder::BuildContext;
use crate::deps::drive;
use crate::paths::{join, join_exec, spans, spans_exec};
use crate::platform::{lib_path, lib_path_spec, opt_view, shared_lib_path, shared_lib_path_spec, Host};
use crate::text::{concat2, has_prefix, push_str_item, replace_all, replace_exec, starts_with, str_eq, views};

verus! {

/// A flag with a path after one of `prefixes` (the first that matches): an
/// empty, absolute (`/`), response-file (`@`) or drive-letter path is kept;
/// a relative one is joined onto the project root, with `\` written `/`.
pub open spec fn absolutize_flag_path_spec(flag: Seq<char>, root: Seq<char>, prefixes: Seq<Seq<char>>) -> Seq<char>
    decreases prefixes.len(),
{
    if prefixes.len() == 0 {
        flag
    } else if has_prefix(flag, prefixes[0]) {
        let rest = flag.skip(prefixes[0].len() as int);
        if rest.len() == 0 || has_prefix(rest, "/"@) || has_prefix(rest, "@"@) || drive(rest) {
            flag
        } else {
            prefixes[0] + replace_all(join(root, rest), "\\"@, "/"@)
        }
    } else {
        absolutize_flag_path_spec(flag, root, prefixes.drop_first())
    }
}

/// Makes the path of an include-style flag absolute.
pub fn absolutize_flag_path(flag: &str, project_root: &str, prefixes: &[&str]) -> (r: String)
    ensures
        r@ == absolutize_flag_path_spec(flag@, project_root@, crate::config::str_views(prefixes@)),
{
    proof {
        reveal_strlit("/");
        reveal_strlit("@");
        reveal_strlit("\\");
    }
    let ghost ps = crate::config::str_views(prefixes@);
    let mut i: usize = 0;
    assert(ps.skip(0) =~= ps);
    while i < prefixes.len()
        invariant
            ps == crate::config::str_views(prefixes@),
            i <= prefixes@.len(),
            "\\"@.len() > 0,
            absolutize_flag_path_spec(flag@, project_root@, ps) == absolutize_flag_path_spec(
                flag@,
                project_root@,
                ps.skip(i as int),
            ),
        decreases prefixes.len() - i,
    {
        let prefix = prefixes[i];
        assert(ps.skip(i as int).drop_first() =~= ps.skip(i + 1));
        assert(ps.skip(i as int)[0] == prefix@);
        if starts_with(flag, prefix) {
            let v = crate::text::chars_of(flag);
            let n = crate::text::chars_of(prefix).len();
            let rest_v = crate::paths::sub_chars(&v, n, v.len());
            let rest = crate::text::string_of(&rest_v);
            assert(rest@ =~= flag@.skip(prefix@.len() as int));
            let r = rest.as_str();
            if r.is_empty() || starts_with(r, "/") || starts_with(r, "@") || drive_str(r) {
                return String::from_str(flag);
            }
            let abs = join_exec(project_root, r);
            let path = replace_exec(abs.as_str(), "\\", "/");
            return concat2(prefix, path.as_str());
        }
        i = i + 1;
    }
    String::from_str(flag)
}

fn drive_str(s: &str) -> (r: bool)
    ensures
        r == drive(s@),
{
    let v = crate::text::chars_of(s);
    v.len() >= 2 && (v[0] as u32) < 128 && v[1] == ':'
}

/// The nearest ancestor of `dir` (itself included) named `target`: `dir`
/// itself when its last component is `target`, else the text up to the last
/// `target` component; `fallback` when there is none.
pub open spec fn find_target_root_spec(dir: Seq<char>, fallback: Seq<char>) -> Seq<char> {
    let sp = spans(dir);
    let is_target = |k: int| dir.subrange(sp[k].0, sp[k].1) == "target"@;
    if sp.len() > 0 && is_target(sp.len() - 1) {
        dir
    } else if exists|k: int| 0 <= k < sp.len() && #[trigger] is_target(k) {
        let k = choose|k: int|
            0 <= k < sp.len() && #[trigger] is_target(k) && forall|m: int| k < m < sp.len() ==> !#[trigger] is_target(m);
        dir.subrange(0, sp[k].1)
    } else {
        fallback
    }
}

/// Finds the `target` directory above (or at) `dir`.
pub fn find_target_root(dir: &str, fallback: &str) -> (r: String)
    ensures
        r@ == find_target_root_spec(dir@, fallback@),
{
    proof {
        reveal_strlit("target");
    }
    let v = crate::text::chars_of(dir);
    let sp = spans_exec(&v);
    proof {
        crate::paths::lemma_spans_wf(dir@);
    }
    let ghost spv = spans(dir@);
    let ghost is_target = |k: int| dir@.subrange(spv[k].0, spv[k].1) == "target"@;
    let mut i: usize = sp.len();
    while i > 0
        invariant
            i <= sp@.len(),
            v@ == dir@,
            spv == spans(dir@),
            sp@.len() == spv.len(),
            forall|k: int| 0 <= k < sp@.len() ==> (sp@[k].0 as int, sp@[k].1 as int) == #[trigger] spv[k],
            forall|k: int| 0 <= k < spv.len() ==> 0 <= (#[trigger] spv[k]).0 <= spv[k].1 <= dir@.len(),
            is_target == (|k: int| dir@.subrange(spv[k].0, spv[k].1) == "target"@),
            forall|m: int| i <= m < spv.len() ==> !#[trigger] is_target(m),
        decreases i,
    {
        let (a, b) = sp[i - 1];
        assert(spv[i - 1] == (a as int, b as int));
        let piece = crate::paths::sub_chars(&v, a, b);
        if crate::text::chars_eq(piece.as_slice(), crate::text::chars_of("target").as_slice()) {
            assert(is_target(i - 1));
            if i == sp.len() {
                return String::from_str(dir);
            }
            proof {
                let k = choose|k: int|
                    0 <= k < spv.len() && #[trigger] is_target(k) && forall|m: int| k < m < spv.len() ==> !#[trigger] is_target(m);
                assert(k == i - 1) by {
                    if k < i - 1 {
                        assert(!is_target(i - 1));
                    } else if k > i - 1 {
                        assert(!is_target(k));
                    }
                }
            }
            let w = crate::paths::sub_chars(&v, 0, b);
            return crate::text::string_of(&w);
        }
        i = i - 1;
    }
    String::from_str(fallback)
}

/// The library files a package exports for its kind (`any` exports both).
pub open spec fn library_outputs_spec(host: Host, ctx: BuildContext) -> Seq<Seq<char>> {
    let k = ctx.kind@;
    (if k == "staticlib"@ || k == "any"@ {
        seq![lib_path_spec(host, ctx.profile@, ctx.project_name@, opt_view(ctx.target_dir))]
    } else {
        Seq::empty()
    }) + (if k == "sharedlib"@ || k == "any"@ {
        seq![shared_lib_path_spec(host, ctx.profile@, ctx.project_name@, opt_view(ctx.target_dir))]
    } else {
        Seq::empty()
    })
}

/// The library files a package exports.
pub fn library_outputs(host: &Host, ctx: &BuildContext) -> (r: Vec<String>)
    ensures
        views(r@) == library_outputs_spec(*host, *ctx),
{
    let mut out: Vec<String> = Vec::new();
    if str_eq(ctx.kind, "staticlib") || str_eq(ctx.kind, "any") {
        let p = lib_path(host, ctx.profile, ctx.project_name, ctx.target_dir);
        push_str_item(&mut out, p.as_str());
    }
    if str_eq(ctx.kind, "sharedlib") || str_eq(ctx.kind, "any") {
        let p = shared_lib_path(host, ctx.profile, ctx.project_name, ctx.target_dir);
        push_str_item(&mut out, p.as_str());
    }
    assert(views(out@) =~= library_outputs_spec(*host, *ctx));
    out
}

} // verus!
