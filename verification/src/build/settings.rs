//! Decisions a build takes from the resolved manifest settings: the compile and
//! link flags, the exclude and include patterns, the source roots and the
//! targets to build.
use vstd::prelude::*;

use crate::paths::{is_absolute, join};
use crate::text::{
    concat2, extend_strings, has_char, prefix_each, prefixed, push_str_item, replace_all, str_eq, trim, trim_exec,
    views,
};

verus! {

// ---------------------------------------------------------------------------
// Compile and link flags
// ---------------------------------------------------------------------------

/// The flags used when the manifest gives no `cflags`: the optimisation level
/// (`opt_level`, else `-O3` for release and `-O0` otherwise), `-g` when debug
/// info is on, the warnings (`-W<w>` for each configured one, else `-Wall
/// -Wextra` in debug), then the profile's defines.
pub open spec fn default_cflags_spec(profile: Seq<char>, opt_level: Seq<char>, debug: bool, warnings: Seq<Seq<char>>) -> Seq<
    Seq<char>,
> {
    let o = if opt_level.len() > 0 {
        seq!["-O"@ + opt_level]
    } else if profile == "release"@ {
        seq!["-O3"@]
    } else {
        seq!["-O0"@]
    };
    let g = if debug {
        seq!["-g"@]
    } else {
        Seq::empty()
    };
    let w = if warnings.len() == 0 {
        if profile == "debug"@ {
            seq!["-Wall"@, "-Wextra"@]
        } else {
            Seq::empty()
        }
    } else {
        prefixed("-W"@, warnings)
    };
    let p = if profile == "debug"@ {
        seq!["-fno-omit-frame-pointer"@, "-DDCR_DEBUG"@]
    } else if profile == "release"@ {
        seq!["-DNDEBUG"@]
    } else {
        Seq::empty()
    };
    o + g + w + p
}

/// The compile flags: the configured ones, or the defaults when none are
/// configured and the build is hosted; then the language's own flags, then
/// `-flto` with link-time optimisation.
pub open spec fn compile_flags_spec(
    cflags: Seq<Seq<char>>,
    profile: Seq<char>,
    opt_level: Seq<char>,
    debug: bool,
    warnings: Seq<Seq<char>>,
    hosted: bool,
    lang_flags: Seq<Seq<char>>,
    lto: bool,
) -> Seq<Seq<char>> {
    let base = if cflags.len() == 0 && hosted {
        default_cflags_spec(profile, opt_level, debug, warnings)
    } else {
        cflags
    };
    base + lang_flags + if lto {
        seq!["-flto"@]
    } else {
        Seq::empty()
    }
}

/// The link flags: the configured ones, `-T<script>` for a linker script,
/// `-flto` with link-time optimisation and `-s` when stripping.
pub open spec fn link_flags_spec(ldflags: Seq<Seq<char>>, ldscript: Seq<char>, lto: bool, strip: bool) -> Seq<Seq<char>> {
    ldflags + (if ldscript.len() > 0 {
        seq!["-T"@ + ldscript]
    } else {
        Seq::empty()
    }) + (if lto {
        seq!["-flto"@]
    } else {
        Seq::empty()
    }) + (if strip {
        seq!["-s"@]
    } else {
        Seq::empty()
    })
}

/// The default compile flags of a profile.
pub fn default_cflags(profile: &str, opt_level: &str, debug: bool, warnings: &[String]) -> (r: Vec<String>)
    ensures
        views(r@) == default_cflags_spec(profile@, opt_level@, debug, views(warnings@)),
{
    proof {
        reveal_strlit("-O");
        reveal_strlit("-O3");
        reveal_strlit("-O0");
        reveal_strlit("-g");
        reveal_strlit("-W");
        reveal_strlit("-Wall");
        reveal_strlit("-Wextra");
        reveal_strlit("-fno-omit-frame-pointer");
        reveal_strlit("-DDCR_DEBUG");
        reveal_strlit("-DNDEBUG");
    }
    let mut out: Vec<String> = Vec::new();
    let is_release = str_eq(profile, "release");
    let is_debug = str_eq(profile, "debug");
    if !opt_level.is_empty() {
        let o = concat2("-O", opt_level);
        push_str_item(&mut out, o.as_str());
    } else if is_release {
        push_str_item(&mut out, "-O3");
    } else {
        push_str_item(&mut out, "-O0");
    }
    let ghost o = views(out@);
    if debug {
        push_str_item(&mut out, "-g");
    }
    let ghost og = views(out@);
    if warnings.len() == 0 {
        if is_debug {
            push_str_item(&mut out, "-Wall");
            push_str_item(&mut out, "-Wextra");
        }
    } else {
        let w = prefix_each("-W", warnings);
        extend_strings(&mut out, w.as_slice());
    }
    let ghost ogw = views(out@);
    if is_debug {
        push_str_item(&mut out, "-fno-omit-frame-pointer");
        push_str_item(&mut out, "-DDCR_DEBUG");
    } else if is_release {
        push_str_item(&mut out, "-DNDEBUG");
    }
    proof {
        let o2 = if opt_level@.len() > 0 {
            seq!["-O"@ + opt_level@]
        } else if profile@ == "release"@ {
            seq!["-O3"@]
        } else {
            seq!["-O0"@]
        };
        let g = if debug {
            seq!["-g"@]
        } else {
            Seq::<Seq<char>>::empty()
        };
        assert(o =~= o2);
        assert(og =~= o + g);
        let w = if warnings@.len() == 0 {
            if profile@ == "debug"@ {
                seq!["-Wall"@, "-Wextra"@]
            } else {
                Seq::<Seq<char>>::empty()
            }
        } else {
            prefixed("-W"@, views(warnings@))
        };
        assert(ogw =~= og + w);
        assert(views(out@) =~= default_cflags_spec(profile@, opt_level@, debug, views(warnings@)));
    }
    out
}

/// The compile flags of a build (see `compile_flags_spec`). The build is
/// hosted when it is neither freestanding nor for a bare-metal target.
pub fn compile_flags(
    cflags: &[String],
    profile: &str,
    opt_level: &str,
    debug: bool,
    warnings: &[String],
    hosted: bool,
    lang_flags: &[String],
    lto: bool,
) -> (r: Vec<String>)
    ensures
        views(r@) == compile_flags_spec(
            views(cflags@),
            profile@,
            opt_level@,
            debug,
            views(warnings@),
            hosted,
            views(lang_flags@),
            lto,
        ),
{
    proof {
        reveal_strlit("-flto");
    }
    let mut out: Vec<String> = if cflags.len() == 0 && hosted {
        default_cflags(profile, opt_level, debug, warnings)
    } else {
        let mut v: Vec<String> = Vec::new();
        extend_strings(&mut v, cflags);
        assert(views(v@) =~= views(cflags@));
        v
    };
    extend_strings(&mut out, lang_flags);
    let ghost mid = views(out@);
    if lto {
        push_str_item(&mut out, "-flto");
    }
    assert(views(out@) =~= mid + if lto {
        seq!["-flto"@]
    } else {
        Seq::<Seq<char>>::empty()
    });
    out
}

/// The link flags of a build (see `link_flags_spec`).
pub fn link_flags(ldflags: &[String], ldscript: &str, lto: bool, strip: bool) -> (r: Vec<String>)
    ensures
        views(r@) == link_flags_spec(views(ldflags@), ldscript@, lto, strip),
{
    proof {
        reveal_strlit("-T");
        reveal_strlit("-flto");
        reveal_strlit("-s");
    }
    let mut out: Vec<String> = Vec::new();
    extend_strings(&mut out, ldflags);
    let ghost a = views(out@);
    if !ldscript.is_empty() {
        let t = concat2("-T", ldscript);
        push_str_item(&mut out, t.as_str());
    }
    let ghost b = views(out@);
    if lto {
        push_str_item(&mut out, "-flto");
    }
    let ghost c = views(out@);
    if strip {
        push_str_item(&mut out, "-s");
    }
    proof {
        let x = if ldscript@.len() > 0 {
            seq!["-T"@ + ldscript@]
        } else {
            Seq::<Seq<char>>::empty()
        };
        let y = if lto {
            seq!["-flto"@]
        } else {
            Seq::<Seq<char>>::empty()
        };
        let z = if strip {
            seq!["-s"@]
        } else {
            Seq::<Seq<char>>::empty()
        };
        assert(a =~= views(ldflags@));
        assert(b =~= a + x);
        assert(c =~= b + y);
        assert(views(out@) =~= c + z);
    }
    out
}

// ---------------------------------------------------------------------------
// Exclude and include patterns, source roots
// ---------------------------------------------------------------------------

/// A pattern with a glob metacharacter.
pub open spec fn has_glob_magic_spec(s: Seq<char>) -> bool {
    has_char(s, '*') || has_char(s, '?') || has_char(s, '[')
}

/// Whether a pattern holds `*`, `?` or `[`.
pub fn has_glob_magic(s: &str) -> (r: bool)
    ensures
        r == has_glob_magic_spec(s@),
{
    crate::text::has_char_exec(s, '*') || crate::text::has_char_exec(s, '?') || crate::text::has_char_exec(s, '[')
}

/// Backslashes written as slashes.
pub open spec fn forward_slashes(s: Seq<char>) -> Seq<char> {
    replace_all(s, "\\"@, "/"@)
}

/// Replaces backslashes by slashes.
pub fn forward_slashes_exec(s: &str) -> (r: String)
    ensures
        r@ == forward_slashes(s@),
{
    proof {
        reveal_strlit("\\");
    }
    crate::text::replace_exec(s, "\\", "/")
}

/// A path taken relative to `root` unless absolute.
pub open spec fn rooted(root: Seq<char>, p: Seq<char>) -> Seq<char> {
    if is_absolute(p) {
        p
    } else {
        join(root, p)
    }
}

/// The directories excluded by the non-blank, non-glob entries of `build.exclude`
/// (trimmed, taken relative to the project root).
pub open spec fn exclude_dirs_spec(excludes: Seq<Seq<char>>, root: Seq<char>) -> Seq<Seq<char>>
    decreases excludes.len(),
{
    if excludes.len() == 0 {
        Seq::empty()
    } else {
        let t = trim(excludes[0]);
        let rest = exclude_dirs_spec(excludes.drop_first(), root);
        if t.len() == 0 || has_glob_magic_spec(forward_slashes(t)) {
            rest
        } else {
            seq![rooted(root, t)] + rest
        }
    }
}

/// The exclude patterns: every non-blank entry, trimmed, with forward slashes.
pub open spec fn exclude_patterns_spec(excludes: Seq<Seq<char>>) -> Seq<Seq<char>>
    decreases excludes.len(),
{
    if excludes.len() == 0 {
        Seq::empty()
    } else {
        let t = trim(excludes[0]);
        let rest = exclude_patterns_spec(excludes.drop_first());
        if t.len() == 0 {
            rest
        } else {
            seq![forward_slashes(t)] + rest
        }
    }
}

/// The source selection patterns: each exclude pattern negated with `!`, then
/// the include entries with forward slashes.
pub open spec fn include_paths_spec(excludes: Seq<Seq<char>>, includes: Seq<Seq<char>>) -> Seq<Seq<char>> {
    prefixed("!"@, exclude_patterns_spec(excludes)) + includes.map_values(|x: Seq<char>| forward_slashes(x))
}

/// The directories named by the non-blank, non-glob entries of `build.include`,
/// as candidates for include directories (kept by the caller when they exist).
pub open spec fn include_dir_candidates_spec(includes: Seq<Seq<char>>, root: Seq<char>) -> Seq<Seq<char>> {
    exclude_dirs_spec(includes, root)
}

/// The source roots: the non-blank `build.roots` entries relative to the project
/// root, or `<root>/src` when there are none and `src` is not disabled.
pub open spec fn root_dirs_spec(roots: Seq<Seq<char>>, root: Seq<char>) -> Seq<Seq<char>>
    decreases roots.len(),
{
    if roots.len() == 0 {
        Seq::empty()
    } else {
        let t = trim(roots[0]);
        let rest = root_dirs_spec(roots.drop_first(), root);
        if t.len() == 0 {
            rest
        } else {
            seq![rooted(root, t)] + rest
        }
    }
}

/// See `root_dirs_spec`.
pub open spec fn source_roots_spec(roots: Seq<Seq<char>>, src_disable: bool, root: Seq<char>) -> Seq<Seq<char>> {
    let d = root_dirs_spec(roots, root);
    if !src_disable && d.len() == 0 {
        seq![join(root, "src"@)]
    } else {
        d
    }
}

proof fn lemma_rooted_absolute(root: Seq<char>, p: Seq<char>)
    requires
        is_absolute(root),
    ensures
        is_absolute(rooted(root, p)),
{
    if !is_absolute(p) {
        if root.last() != '/' {
            assert((root + seq!['/'] + p)[0] == root[0]);
        } else {
            assert((root + p)[0] == root[0]);
        }
    }
}

proof fn lemma_exclude_dirs_absolute(excludes: Seq<Seq<char>>, root: Seq<char>)
    requires
        is_absolute(root),
    ensures
        forall|k: int| 0 <= k < exclude_dirs_spec(excludes, root).len() ==> is_absolute(
            #[trigger] exclude_dirs_spec(excludes, root)[k],
        ),
    decreases excludes.len(),
{
    if excludes.len() > 0 {
        lemma_exclude_dirs_absolute(excludes.drop_first(), root);
        let t = trim(excludes[0]);
        let rest = exclude_dirs_spec(excludes.drop_first(), root);
        lemma_rooted_absolute(root, t);
        let r = exclude_dirs_spec(excludes, root);
        assert forall|k: int| 0 <= k < r.len() implies is_absolute(#[trigger] r[k]) by {
            if !(t.len() == 0 || has_glob_magic_spec(forward_slashes(t))) && k > 0 {
                assert(r[k] == rest[k - 1]);
            }
        }
    }
}

proof fn lemma_root_dirs_absolute(roots: Seq<Seq<char>>, root: Seq<char>)
    requires
        is_absolute(root),
    ensures
        forall|k: int| 0 <= k < root_dirs_spec(roots, root).len() ==> is_absolute(#[trigger] root_dirs_spec(roots, root)[k]),
    decreases roots.len(),
{
    if roots.len() > 0 {
        lemma_root_dirs_absolute(roots.drop_first(), root);
        let t = trim(roots[0]);
        let rest = root_dirs_spec(roots.drop_first(), root);
        lemma_rooted_absolute(root, t);
        let r = root_dirs_spec(roots, root);
        assert forall|k: int| 0 <= k < r.len() implies is_absolute(#[trigger] r[k]) by {
            if t.len() != 0 && k > 0 {
                assert(r[k] == rest[k - 1]);
            }
        }
    }
}

/// For a project at an absolute root, every source root, every excluded
/// directory and every candidate include directory of a build is an absolute
/// path, so sources found under them are compared against the same anchor.
pub proof fn lemma_build_dirs_absolute(
    roots: Seq<Seq<char>>,
    src_disable: bool,
    excludes: Seq<Seq<char>>,
    includes: Seq<Seq<char>>,
    root: Seq<char>,
)
    requires
        is_absolute(root),
    ensures
        forall|k: int|
            0 <= k < source_roots_spec(roots, src_disable, root).len() ==> is_absolute(
                #[trigger] source_roots_spec(roots, src_disable, root)[k],
            ),
        forall|k: int| 0 <= k < exclude_dirs_spec(excludes, root).len() ==> is_absolute(
            #[trigger] exclude_dirs_spec(excludes, root)[k],
        ),
        forall|k: int|
            0 <= k < include_dir_candidates_spec(includes, root).len() ==> is_absolute(
                #[trigger] include_dir_candidates_spec(includes, root)[k],
            ),
{
    lemma_root_dirs_absolute(roots, root);
    lemma_exclude_dirs_absolute(excludes, root);
    lemma_exclude_dirs_absolute(includes, root);
    lemma_rooted_absolute(root, "src"@);
}

/// Excluded directories: `extra` (the paths of workspace members built on
/// their own) followed by those of `build.exclude`.
pub fn exclude_dirs(extra: &[String], excludes: &[String], root: &str) -> (r: Vec<String>)
    ensures
        views(r@) == views(extra@) + exclude_dirs_spec(views(excludes@), root@),
{
    proof {
        reveal_strlit("\\");
        reveal_strlit("/");
    }
    let mut out: Vec<String> = Vec::new();
    extend_strings(&mut out, extra);
    let ghost e = views(excludes@);
    let ghost start = views(out@);
    let mut i: usize = 0;
    assert(e.skip(0) =~= e);
    while i < excludes.len()
        invariant
            e == views(excludes@),
            i <= excludes@.len(),
            start + exclude_dirs_spec(e, root@) == views(out@) + exclude_dirs_spec(e.skip(i as int), root@),
        decreases excludes.len() - i,
    {
        assert(e.skip(i as int).drop_first() =~= e.skip(i + 1));
        assert(e.skip(i as int)[0] == excludes@[i as int]@);
        let ghost before = views(out@);
        let t = trim_exec(excludes[i].as_str());
        if !t.as_str().is_empty() {
            let n = forward_slashes_exec(t.as_str());
            if !has_glob_magic(n.as_str()) {
                let d = if crate::paths::is_absolute_exec(t.as_str()) {
                    t
                } else {
                    crate::paths::join_exec(root, t.as_str())
                };
                push_str_item(&mut out, d.as_str());
                assert(before + (seq![d@] + exclude_dirs_spec(e.skip(i + 1), root@)) =~= views(out@)
                    + exclude_dirs_spec(e.skip(i + 1), root@));
            }
        }
        i = i + 1;
    }
    assert(e.skip(excludes@.len() as int) =~= Seq::<Seq<char>>::empty());
    assert(views(out@) + Seq::<Seq<char>>::empty() =~= views(out@));
    out
}

/// The exclude patterns of `build.exclude`.
pub fn exclude_patterns(excludes: &[String]) -> (r: Vec<String>)
    ensures
        views(r@) == exclude_patterns_spec(views(excludes@)),
{
    proof {
        reveal_strlit("\\");
        reveal_strlit("/");
    }
    let mut out: Vec<String> = Vec::new();
    let ghost e = views(excludes@);
    let mut i: usize = 0;
    assert(e.skip(0) =~= e);
    assert(views(out@) =~= Seq::<Seq<char>>::empty());
    while i < excludes.len()
        invariant
            e == views(excludes@),
            i <= excludes@.len(),
            exclude_patterns_spec(e) == views(out@) + exclude_patterns_spec(e.skip(i as int)),
        decreases excludes.len() - i,
    {
        assert(e.skip(i as int).drop_first() =~= e.skip(i + 1));
        assert(e.skip(i as int)[0] == excludes@[i as int]@);
        let ghost before = views(out@);
        let t = trim_exec(excludes[i].as_str());
        if !t.as_str().is_empty() {
            let n = forward_slashes_exec(t.as_str());
            push_str_item(&mut out, n.as_str());
            assert(before + (seq![n@] + exclude_patterns_spec(e.skip(i + 1))) =~= views(out@) + exclude_patterns_spec(
                e.skip(i + 1),
            ));
        }
        i = i + 1;
    }
    assert(e.skip(excludes@.len() as int) =~= Seq::<Seq<char>>::empty());
    assert(views(out@) + Seq::<Seq<char>>::empty() =~= views(out@));
    out
}

/// The source selection patterns (see `include_paths_spec`).
pub fn include_paths(excludes: &[String], includes: &[String]) -> (r: Vec<String>)
    ensures
        views(r@) == include_paths_spec(views(excludes@), views(includes@)),
{
    proof {
        reveal_strlit("\\");
        reveal_strlit("/");
    }
    let pats = exclude_patterns(excludes);
    let mut out = prefix_each("!", pats.as_slice());
    let ghost start = views(out@);
    let mut i: usize = 0;
    while i < includes.len()
        invariant
            i <= includes@.len(),
            views(out@) == start + views(includes@).take(i as int).map_values(|x: Seq<char>| forward_slashes(x)),
        decreases includes.len() - i,
    {
        let ghost before = views(out@);
        let n = forward_slashes_exec(includes[i].as_str());
        push_str_item(&mut out, n.as_str());
        assert(views(includes@).take(i + 1).map_values(|x: Seq<char>| forward_slashes(x)) =~= views(includes@).take(
            i as int,
        ).map_values(|x: Seq<char>| forward_slashes(x)).push(forward_slashes(includes@[i as int]@)));
        i = i + 1;
    }
    assert(views(includes@).take(includes@.len() as int) =~= views(includes@));
    out
}

/// Candidate include directories named by `build.include`.
pub fn include_dir_candidates(includes: &[String], root: &str) -> (r: Vec<String>)
    ensures
        views(r@) == include_dir_candidates_spec(views(includes@), root@),
{
    let none: Vec<String> = Vec::new();
    let r = exclude_dirs(none.as_slice(), includes, root);
    assert(views(none@) =~= Seq::<Seq<char>>::empty());
    assert(views(r@) =~= exclude_dirs_spec(views(includes@), root@));
    r
}

/// The source roots of a build (see `source_roots_spec`).
pub fn source_roots(roots: &[String], src_disable: bool, root: &str) -> (r: Vec<String>)
    ensures
        views(r@) == source_roots_spec(views(roots@), src_disable, root@),
{
    proof {
        reveal_strlit("src");
    }
    let mut out: Vec<String> = Vec::new();
    let ghost e = views(roots@);
    let mut i: usize = 0;
    assert(e.skip(0) =~= e);
    assert(views(out@) =~= Seq::<Seq<char>>::empty());
    while i < roots.len()
        invariant
            e == views(roots@),
            i <= roots@.len(),
            root_dirs_spec(e, root@) == views(out@) + root_dirs_spec(e.skip(i as int), root@),
        decreases roots.len() - i,
    {
        assert(e.skip(i as int).drop_first() =~= e.skip(i + 1));
        assert(e.skip(i as int)[0] == roots@[i as int]@);
        let ghost before = views(out@);
        let t = trim_exec(roots[i].as_str());
        if !t.as_str().is_empty() {
            let d = if crate::paths::is_absolute_exec(t.as_str()) {
                t
            } else {
                crate::paths::join_exec(root, t.as_str())
            };
            push_str_item(&mut out, d.as_str());
            assert(before + (seq![d@] + root_dirs_spec(e.skip(i + 1), root@)) =~= views(out@) + root_dirs_spec(
                e.skip(i + 1),
                root@,
            ));
        }
        i = i + 1;
    }
    assert(e.skip(roots@.len() as int) =~= Seq::<Seq<char>>::empty());
    assert(views(out@) + Seq::<Seq<char>>::empty() =~= views(out@));
    if !src_disable && out.len() == 0 {
        let s = crate::paths::join_exec(root, "src");
        let mut v: Vec<String> = Vec::new();
        push_str_item(&mut v, s.as_str());
        assert(views(v@) =~= seq![join(root@, "src"@)]);
        return v;
    }
    out
}

// ---------------------------------------------------------------------------
// Targets
// ---------------------------------------------------------------------------

/// The targets to build: the requested one, else the configured ones, else the
/// native build (`None`); short OS names expanded to triples.
pub open spec fn targets_to_build_spec(target: Option<Seq<char>>, configured: Seq<Seq<char>>) -> Seq<Option<Seq<char>>> {
    match target {
        Some(t) => seq![Some(crate::resolve::normalize_target_os_spec(t))],
        None => if configured.len() == 0 {
            seq![None]
        } else {
            configured.map_values(|t: Seq<char>| Some(crate::resolve::normalize_target_os_spec(t)))
        },
    }
}

/// Expanding short target names is idempotent: an expanded name stays as it is.
pub proof fn lemma_normalize_target_idempotent(t: Seq<char>)
    ensures
        crate::resolve::normalize_target_os_spec(crate::resolve::normalize_target_os_spec(t))
            == crate::resolve::normalize_target_os_spec(t),
{
    reveal_strlit("linux");
    reveal_strlit("macos");
    reveal_strlit("windows");
    reveal_strlit("x86_64-unknown-linux-gnu");
    reveal_strlit("x86_64-apple-darwin");
    reveal_strlit("x86_64-pc-windows-msvc");
    assert("linux"@.len() == 5 && "macos"@.len() == 5 && "windows"@.len() == 7);
    assert("x86_64-unknown-linux-gnu"@.len() == 24);
    assert("x86_64-apple-darwin"@.len() == 19);
    assert("x86_64-pc-windows-msvc"@.len() == 22);
}

/// A build always has at least one target to build, and every named target
/// is given by its full triple (expanding it again changes nothing).
pub proof fn lemma_targets_to_build(target: Option<Seq<char>>, configured: Seq<Seq<char>>)
    ensures
        targets_to_build_spec(target, configured).len() >= 1,
        forall|k: int|
            0 <= k < targets_to_build_spec(target, configured).len() && (#[trigger] targets_to_build_spec(
                target,
                configured,
            )[k]) is Some ==> crate::resolve::normalize_target_os_spec(targets_to_build_spec(target, configured)[k]->Some_0)
                == targets_to_build_spec(target, configured)[k]->Some_0,
{
    let r = targets_to_build_spec(target, configured);
    assert forall|k: int| 0 <= k < r.len() && (#[trigger] r[k]) is Some implies crate::resolve::normalize_target_os_spec(
        r[k]->Some_0,
    ) == r[k]->Some_0 by {
        match target {
            Some(t) => lemma_normalize_target_idempotent(t),
            None => lemma_normalize_target_idempotent(configured[k]),
        }
    }
}

/// The view of a list of optional targets.
pub open spec fn opt_views(v: Seq<Option<String>>) -> Seq<Option<Seq<char>>> {
    v.map_values(|o: Option<String>| match o {
        Some(s) => Some(s@),
        None => None,
    })
}

/// The targets to build (see `targets_to_build_spec`).
pub fn targets_to_build(target: Option<&str>, configured: &[String]) -> (r: Vec<Option<String>>)
    ensures
        opt_views(r@) == targets_to_build_spec(crate::platform::opt_view(target), views(configured@)),
{
    let mut out: Vec<Option<String>> = Vec::new();
    match target {
        Some(t) => {
            let n = crate::resolve::normalize_target_os(t);
            out.push(Some(crate::text::own(n)));
            assert(opt_views(out@) =~= seq![Some(crate::resolve::normalize_target_os_spec(t@))]);
            return out;
        },
        None => {},
    }
    if configured.len() == 0 {
        out.push(None);
        assert(opt_views(out@) =~= seq![None::<Seq<char>>]);
        return out;
    }
    let mut i: usize = 0;
    while i < configured.len()
        invariant
            target is None,
            i <= configured@.len(),
            opt_views(out@) == views(configured@).take(i as int).map_values(
                |t: Seq<char>| Some(crate::resolve::normalize_target_os_spec(t)),
            ),
        decreases configured.len() - i,
    {
        let ghost before = out@;
        let n = crate::resolve::normalize_target_os(configured[i].as_str());
        out.push(Some(crate::text::own(n)));
        assert(opt_views(out@) =~= opt_views(before).push(Some(n@)));
        assert(views(configured@).take(i + 1).map_values(|t: Seq<char>| Some(crate::resolve::normalize_target_os_spec(t)))
            =~= views(configured@).take(i as int).map_values(
            |t: Seq<char>| Some(crate::resolve::normalize_target_os_spec(t)),
        ).push(Some(crate::resolve::normalize_target_os_spec(configured@[i as int]@))));
        i = i + 1;
    }
    assert(views(configured@).take(configured@.len() as int) =~= views(configured@));
    out
}

// ---------------------------------------------------------------------------
// Output directory
// ---------------------------------------------------------------------------

/// The host's default build directory under `target/`: `<triple>/<profile>` on
/// Linux and the other Unix-like systems, `<profile>` elsewhere.
pub open spec fn default_build_dir_spec(host: crate::platform::Host, profile: Seq<char>) -> Seq<char> {
    match host.os {
        crate::platform::HostOs::Linux | crate::platform::HostOs::Other => host.triple@ + "/"@ + profile,
        _ => profile,
    }
}

/// The directory artifacts go to.
///
/// An `out_dir` setting wins, taken relative to the project root. A workspace
/// member builds under the workspace root's `target/<triple>/<profile>` (the
/// target's triple, else the host's default directory). A standalone project
/// builds under its own root, in `target_rel` (the relative directory named for
/// the requested target) when there is one, else `target/<host default>`.
pub open spec fn target_dir_spec(
    out_dir: Seq<char>,
    project_root: Seq<char>,
    workspace_root: Option<Seq<char>>,
    target: Option<Seq<char>>,
    profile: Seq<char>,
    host: crate::platform::Host,
    target_rel: Option<Seq<char>>,
) -> Seq<char> {
    if out_dir.len() > 0 {
        rooted(project_root, out_dir)
    } else {
        match workspace_root {
            Some(w) => {
                let t = match target {
                    Some(t) => crate::resolve::normalize_target_os_spec(t),
                    None => Seq::empty(),
                };
                let rel = if t.len() > 0 {
                    join(join("target"@, t), profile)
                } else {
                    join("target"@, default_build_dir_spec(host, profile))
                };
                join(w, rel)
            },
            None => {
                let base = match target_rel {
                    Some(r) => r,
                    None => join("target"@, default_build_dir_spec(host, profile)),
                };
                join(project_root, base)
            },
        }
    }
}

/// The host's default build directory.
pub fn default_build_dir(host: &crate::platform::Host, profile: &str) -> (r: String)
    ensures
        r@ == default_build_dir_spec(*host, profile@),
{
    match host.os {
        crate::platform::HostOs::Linux | crate::platform::HostOs::Other => {
            crate::text::concat3(host.triple.as_str(), "/", profile)
        },
        _ => crate::text::own(profile),
    }
}

/// The directory artifacts go to (see `target_dir_spec`).
pub fn target_dir(
    out_dir: &str,
    project_root: &str,
    workspace_root: Option<&str>,
    target: Option<&str>,
    profile: &str,
    host: &crate::platform::Host,
    target_rel: Option<&str>,
) -> (r: String)
    ensures
        r@ == target_dir_spec(
            out_dir@,
            project_root@,
            crate::platform::opt_view(workspace_root),
            crate::platform::opt_view(target),
            profile@,
            *host,
            crate::platform::opt_view(target_rel),
        ),
{
    if !out_dir.is_empty() {
        if crate::paths::is_absolute_exec(out_dir) {
            return crate::text::own(out_dir);
        }
        return crate::paths::join_exec(project_root, out_dir);
    }
    match workspace_root {
        Some(w) => {
            let t: &str = match target {
                Some(t) => crate::resolve::normalize_target_os(t),
                None => "",
            };
            proof {
                reveal_strlit("");
            }
            let rel = if !t.is_empty() {
                let a = crate::paths::join_exec("target", t);
                crate::paths::join_exec(a.as_str(), profile)
            } else {
                let d = default_build_dir(host, profile);
                crate::paths::join_exec("target", d.as_str())
            };
            crate::paths::join_exec(w, rel.as_str())
        },
        None => {
            let base = match target_rel {
                Some(r) => crate::text::own(r),
                None => {
                    let d = default_build_dir(host, profile);
                    crate::paths::join_exec("target", d.as_str())
                },
            };
            crate::paths::join_exec(project_root, base.as_str())
        },
    }
}

// ---------------------------------------------------------------------------
// Numbers and build decisions
// ---------------------------------------------------------------------------

/// A decimal digit.
pub open spec fn is_digit(c: char) -> bool {
    '0' <= c <= '9'
}

/// The value of a string of decimal digits.
pub open spec fn digits_value(s: Seq<char>) -> int
    decreases s.len(),
{
    if s.len() == 0 {
        0
    } else {
        digits_value(s.drop_last()) * 10 + (s.last() as int - '0' as int)
    }
}

/// The text after a leading `+`, if any.
pub open spec fn without_plus(s: Seq<char>) -> Seq<char> {
    if s.len() > 0 && s[0] == '+' {
        s.drop_first()
    } else {
        s
    }
}

/// The digits of an unsigned number as `str::parse` reads them: an optional `+`
/// then one or more decimal digits.
pub open spec fn unsigned_digits(s: Seq<char>) -> Option<Seq<char>> {
    let d = without_plus(s);
    if d.len() > 0 && forall|i: int| 0 <= i < d.len() ==> is_digit(#[trigger] d[i]) {
        Some(d)
    } else {
        None
    }
}

/// `s.parse::<usize>().unwrap_or(0)`: the number written, or 0 when the text
/// is not a number or does not fit.
pub open spec fn parse_usize_or_zero_spec(s: Seq<char>) -> int {
    match unsigned_digits(s) {
        Some(d) => if digits_value(d) <= usize::MAX {
            digits_value(d)
        } else {
            0
        },
        None => 0,
    }
}

proof fn lemma_digits_value_nonneg(s: Seq<char>)
    requires
        forall|i: int| 0 <= i < s.len() ==> is_digit(#[trigger] s[i]),
    ensures
        digits_value(s) >= 0,
    decreases s.len(),
{
    if s.len() > 0 {
        assert forall|i: int| 0 <= i < s.drop_last().len() implies is_digit(#[trigger] s.drop_last()[i]) by {
            assert(s.drop_last()[i] == s[i]);
        }
        lemma_digits_value_nonneg(s.drop_last());
    }
}

/// A longer run of digits is worth at least its prefix.
proof fn lemma_digits_value_grows(s: Seq<char>, k: int)
    requires
        0 <= k <= s.len(),
        forall|i: int| 0 <= i < s.len() ==> is_digit(#[trigger] s[i]),
    ensures
        digits_value(s.take(k)) <= digits_value(s),
    decreases s.len() - k,
{
    if k < s.len() {
        lemma_digits_value_grows(s, k + 1);
        assert(s.take(k + 1).drop_last() =~= s.take(k));
        assert forall|i: int| 0 <= i < s.take(k).len() implies is_digit(#[trigger] s.take(k)[i]) by {
            assert(s.take(k)[i] == s[i]);
        }
        lemma_digits_value_nonneg(s.take(k));
    } else {
        assert(s.take(k) =~= s);
    }
}

/// Reads an unsigned number, 0 when the text is not one or does not fit.
pub fn parse_usize_or_zero(s: &str) -> (r: usize)
    ensures
        r == parse_usize_or_zero_spec(s@),
{
    let v = crate::text::chars_of(s);
    let start: usize = if v.len() > 0 && v[0] == '+' {
        1
    } else {
        0
    };
    let ghost d = without_plus(s@);
    assert(d =~= v@.skip(start as int));
    if start >= v.len() {
        return 0;
    }
    let mut acc: usize = 0;
    let mut i: usize = start;
    let mut big = false;
    while i < v.len()
        invariant
            v@ == s@,
            start <= i <= v@.len(),
            d == v@.skip(start as int),
            d == without_plus(s@),
            forall|j: int| start <= j < i ==> is_digit(#[trigger] v@[j]),
            !big ==> acc == digits_value(d.take(i - start)),
            big ==> digits_value(d.take(i - start)) > usize::MAX,
        decreases v.len() - i,
    {
        let c = v[i];
        if !('0' <= c && c <= '9') {
            assert(d[(i - start) as int] == v@[i as int]);
            assert(!is_digit(d[(i - start) as int]));
            assert(!(forall|j: int| 0 <= j < d.len() ==> is_digit(#[trigger] d[j])));
            assert(unsigned_digits(s@) is None);
            return 0;
        }
        let digit = (c as u32 - '0' as u32) as usize;
        assert(d.take(i + 1 - start).drop_last() =~= d.take(i - start));
        assert(d.take(i + 1 - start).last() == c);
        proof {
            assert forall|j: int| 0 <= j < d.take(i - start).len() implies is_digit(#[trigger] d.take(i - start)[j]) by {
                assert(d.take(i - start)[j] == v@[start + j]);
            }
            lemma_digits_value_nonneg(d.take(i - start));
        }
        if !big {
            if acc > (usize::MAX - digit) / 10 {
                big = true;
                assert(acc * 10 + digit > usize::MAX) by (nonlinear_arith)
                    requires
                        acc > (usize::MAX - digit) / 10,
                        digit <= 9,
                ;
            } else {
                assert(acc * 10 + digit <= usize::MAX) by (nonlinear_arith)
                    requires
                        acc <= (usize::MAX - digit) / 10,
                        digit <= 9,
                ;
                acc = acc * 10 + digit;
            }
        } else {
            assert(digits_value(d.take(i + 1 - start)) >= digits_value(d.take(i - start)) * 10) ;
        }
        i = i + 1;
    }
    assert(d.take(v@.len() - start) =~= d);
    if big {
        0
    } else {
        acc
    }
}

/// What a build does once its inputs are known.
#[derive(Debug, Clone, Copy, PartialEq, Eq, Structural)]
pub struct BuildDecision {
    /// Run the pre-build steps (after removing generated files).
    pub run_steps: bool,
    /// Compile and link.
    pub compile: bool,
    /// Stop here: the build is up to date.
    pub stop: bool,
}

/// The steps run when they are out of date or the build is forced; the
/// compile is skipped only when the fingerprint matches and neither steps ran
/// nor the build was forced; an up-to-date build stops unless debugging.
pub open spec fn build_decision_spec(steps_stale: bool, force: bool, fresh: bool, debugging: bool) -> BuildDecision {
    let run_steps = steps_stale || force;
    let skip = fresh && !run_steps && !force;
    BuildDecision { run_steps, compile: !skip, stop: skip && !debugging }
}

/// Decides what a build does (see `build_decision_spec`).
pub fn build_decision(steps_stale: bool, force: bool, fresh: bool, debugging: bool) -> (r: BuildDecision)
    ensures
        r == build_decision_spec(steps_stale, force, fresh, debugging),
{
    let run_steps = steps_stale || force;
    let skip = fresh && !run_steps && !force;
    BuildDecision { run_steps, compile: !skip, stop: skip && !debugging }
}

/// A library is packaged (headers and archives copied out) for a package of
/// type `lib` and for static or shared library builds.
pub open spec fn packages_library_spec(package_type: Option<Seq<char>>, kind: Seq<char>) -> bool {
    package_type == Some("lib"@) || kind == "staticlib"@ || kind == "sharedlib"@
}

/// Whether the build packages a library.
pub fn packages_library(package_type: Option<&str>, kind: &str) -> (r: bool)
    ensures
        r == packages_library_spec(crate::platform::opt_view(package_type), kind@),
{
    let lib = match package_type {
        Some(t) => str_eq(t, "lib"),
        None => false,
    };
    lib || str_eq(kind, "staticlib") || str_eq(kind, "sharedlib")
}


// ---------------------------------------------------------------------------
// Language and compiler
// ---------------------------------------------------------------------------

/// The text before the first comma (all of it when there is none).
pub open spec fn before_comma(s: Seq<char>) -> Seq<char> {
    if exists|i: int| 0 <= i < s.len() && s[i] == ',' {
        s.take(choose|i: int| 0 <= i < s.len() && s[i] == ',' && forall|j: int| 0 <= j < i ==> s[j] != ',')
    } else {
        s
    }
}

/// The language that selects per-language settings and the compiler: the
/// first of a comma-separated list, trimmed and in lower case.
pub open spec fn primary_language_spec(language: Seq<char>) -> Seq<char> {
    crate::text::lower(crate::text::trim(before_comma(language)))
}

/// The primary language of a build (see `primary_language_spec`).
pub fn primary_language(language: &str) -> (r: String)
    ensures
        r@ == primary_language_spec(language@),
{
    let v = crate::text::chars_of(language);
    let mut i: usize = 0;
    while i < v.len()
        invariant
            i <= v@.len(),
            v@ == language@,
            forall|j: int| 0 <= j < i ==> v@[j] != ',',
        decreases v.len() - i,
    {
        if v[i] == ',' {
            let first = crate::paths::sub_chars(&v, 0, i);
            let s = crate::text::string_of(&first);
            proof {
                let k = choose|k: int| 0 <= k < v@.len() && v@[k] == ',' && forall|j: int| 0 <= j < k ==> v@[j] != ',';
                if k < i {
                    assert(v@[k] != ',');
                }
                if i < k {
                    assert(v@[i as int] != ',');
                }
                assert(before_comma(language@) =~= s@);
            }
            let t = crate::text::trim_exec(s.as_str());
            return crate::text::lower_exec(t.as_str());
        }
        i = i + 1;
    }
    assert(before_comma(language@) == language@);
    let t = crate::text::trim_exec(language);
    crate::text::lower_exec(t.as_str())
}

/// Whether a primary language is C++.
pub open spec fn is_cxx_key(k: Seq<char>) -> bool {
    k == "c++"@ || k == "cpp"@ || k == "cxx"@
}

/// The compiler of a build: the toolchain's assembler for `asm`, its C++
/// compiler for C++, its C compiler otherwise, when the toolchain names one;
/// else the configured compiler.
pub open spec fn resolve_compiler_spec(
    lang_key: Seq<char>,
    compiler: Seq<char>,
    cc: Option<Seq<char>>,
    cxx: Option<Seq<char>>,
    assembler: Option<Seq<char>>,
) -> Seq<char> {
    let chosen = if lang_key == "asm"@ {
        assembler
    } else if is_cxx_key(lang_key) {
        cxx
    } else {
        cc
    };
    match chosen {
        Some(c) => c,
        None => compiler,
    }
}

/// The compiler of a build (see `resolve_compiler_spec`).
pub fn resolve_compiler(lang_key: &str, compiler: &str, cc: Option<&str>, cxx: Option<&str>, assembler: Option<&str>) -> (r: String)
    ensures
        r@ == resolve_compiler_spec(
            lang_key@,
            compiler@,
            crate::platform::opt_view(cc),
            crate::platform::opt_view(cxx),
            crate::platform::opt_view(assembler),
        ),
{
    let chosen = if crate::text::str_eq(lang_key, "asm") {
        assembler
    } else if crate::text::str_eq(lang_key, "c++") || crate::text::str_eq(lang_key, "cpp") || crate::text::str_eq(
        lang_key,
        "cxx",
    ) {
        cxx
    } else {
        cc
    };
    match chosen {
        Some(c) => crate::text::own(c),
        None => crate::text::own(compiler),
    }
}


/// A target without an operating system: its triple names `none` as the
/// system (`-none`) or ends in the `elf` environment.
pub open spec fn is_bare_metal_spec(target: Option<Seq<char>>) -> bool {
    match target {
        Some(t) => crate::text::contains(t, "-none"@) || crate::text::has_suffix(t, "-elf"@),
        None => false,
    }
}

/// Whether the build target is bare metal (see `is_bare_metal_spec`).
pub fn is_bare_metal_target(target: Option<&str>) -> (r: bool)
    ensures
        r == is_bare_metal_spec(crate::platform::opt_view(target)),
{
    match target {
        Some(t) => crate::text::contains_str(t, "-none") || crate::text::ends_with(t, "-elf"),
        None => false,
    }
}


/// The artifact kind of a build: the configured kind, trimmed and in lower
/// case; `bin` when none is set.
pub open spec fn normalize_kind_spec(raw: Seq<char>) -> Seq<char> {
    let t = crate::text::lower(crate::text::trim(raw));
    if t.len() == 0 {
        "bin"@
    } else {
        t
    }
}

/// Normalizes a configured artifact kind (see `normalize_kind_spec`).
pub fn normalize_kind(raw: &str) -> (r: String)
    ensures
        r@ == normalize_kind_spec(raw@),
{
    let t = crate::text::trim_exec(raw);
    let l = crate::text::lower_exec(t.as_str());
    if l.as_str().is_empty() {
        String::from_str("bin")
    } else {
        l
    }
}


/// With warnings configured, the default flags are the optimisation level,
/// `-g` when debugging, then `-W<w>` for every configured warning in order,
/// then the profile's defines (two for `debug`, one for `release`).
pub proof fn lemma_every_warning_is_passed(profile: Seq<char>, opt_level: Seq<char>, debug: bool, warnings: Seq<Seq<char>>)
    requires
        warnings.len() > 0,
    ensures
        ({
            let r = default_cflags_spec(profile, opt_level, debug, warnings);
            let start: int = if debug { 2 } else { 1 };
            let defines: int = if profile == "debug"@ { 2 } else if profile == "release"@ { 1 } else { 0 };
            &&& r.len() == start + warnings.len() + defines
            &&& forall|i: int| 0 <= i < warnings.len() ==> #[trigger] r[start + i] == "-W"@ + warnings[i]
        }),
{
    let r = default_cflags_spec(profile, opt_level, debug, warnings);
    let start: int = if debug { 2 } else { 1 };
    assert forall|i: int| 0 <= i < warnings.len() implies #[trigger] r[start + i] == "-W"@ + warnings[i] by {}
}

} // verus!
