//! Source bookkeeping shared by the backends: which sources are excluded,
//! where their objects go, and what a compiler's dependency file lists.
use vstd::prelude::*;
use vstd::utf8::{decode_utf8, encode_utf8, encode_utf8_decode_utf8, is_char_boundary};

use crate::paths::{
    components, is_absolute, is_absolute_exec, join, join_exec, starts_with, starts_with_exec,
    strip_prefix, strip_prefix_exec, with_extension, with_extension_exec,
};
use crate::text::{
    chars_of, concat2, is_ascii_alpha, is_whitespace, is_whitespace_exec, own, replace_all,
    replace_exec, string_of, trim_start_matches, trim_start_matches_exec,
};

verus! {

// ---------------------------------------------------------------------------
// Exclusion and object paths
// ---------------------------------------------------------------------------

/// Some directory of `exclude_dirs` is a component-wise prefix of `path`.
pub open spec fn is_excluded_spec(path: Seq<char>, exclude_dirs: Seq<Seq<char>>) -> bool {
    exists|i: int| 0 <= i < exclude_dirs.len() && starts_with(path, #[trigger] exclude_dirs[i])
}

/// Whether `path` lies in (or is) one of the excluded directories.
pub fn is_excluded(path: &str, exclude_dirs: &[String]) -> (r: bool)
    ensures
        r == is_excluded_spec(path@, crate::text::views(exclude_dirs@)),
{
    let ghost ex = crate::text::views(exclude_dirs@);
    let mut i: usize = 0;
    while i < exclude_dirs.len()
        invariant
            ex == crate::text::views(exclude_dirs@),
            i <= exclude_dirs@.len(),
            forall|j: int| 0 <= j < i ==> !starts_with(path@, #[trigger] ex[j]),
        decreases exclude_dirs.len() - i,
    {
        if starts_with_exec(path, exclude_dirs[i].as_str()) {
            assert(ex[i as int] == exclude_dirs@[i as int]@);
            return true;
        }
        i = i + 1;
    }
    false
}

/// The source path relative to the source directory: without a leading
/// `./src` or `src` component prefix, else unchanged.
pub open spec fn source_rel(source: Seq<char>) -> Seq<char> {
    match strip_prefix(source, "./src"@) {
        Some(r) => r,
        None => match strip_prefix(source, "src"@) {
            Some(r) => r,
            None => source,
        },
    }
}

/// Where the object of `source` goes: its path relative to `src`, under
/// `obj_dir`, with the extension replaced by `obj_ext` (leading dots dropped).
pub open spec fn object_path_spec(obj_dir: Seq<char>, source: Seq<char>, obj_ext: Seq<char>) -> Seq<char> {
    with_extension(join(obj_dir, source_rel(source)), trim_start_matches(obj_ext, "."@))
}

/// An extension that `PathBuf::set_extension` accepts: it holds no separator.
pub open spec fn extension_ok(ext: Seq<char>) -> bool {
    !crate::text::has_char(trim_start_matches(ext, "."@), '/')
}

/// The object file path for a source file.
pub fn object_path(obj_dir: &str, source: &str, obj_ext: &str) -> (r: String)
    requires
        extension_ok(obj_ext@),
    ensures
        r@ == object_path_spec(obj_dir@, source@, obj_ext@),
{
    proof {
        reveal_strlit("./src");
        reveal_strlit("src");
        reveal_strlit(".");
        assert(components("./src"@) =~= seq![seq!['.'], seq!['s', 'r', 'c']]) by {
            lemma_components_dot_src();
        }
        assert(components("src"@).len() > 0) by {
            lemma_components_src();
        }
    }
    let rel = match strip_prefix_exec(source, "./src") {
        Some(r) => r,
        None => match strip_prefix_exec(source, "src") {
            Some(r) => r,
            None => own(source),
        },
    };
    let joined = join_exec(obj_dir, rel.as_str());
    let ext = trim_start_matches_exec(obj_ext, ".");
    with_extension_exec(joined.as_str(), ext.as_str())
}

proof fn lemma_components_dot_src()
    ensures
        components("./src"@) =~= seq![seq!['.'], seq!['s', 'r', 'c']],
{
    reveal_strlit("./src");
    let s = "./src"@;
    assert(s =~= seq!['.', '/', 's', 'r', 'c']);
    reveal_with_fuel(crate::paths::spans_acc, 7);
    assert(crate::paths::spans(s) =~= seq![(2int, 5int)]);
    assert(crate::paths::pieces(s) =~= seq![s.subrange(2, 5)]);
    assert(s.subrange(2, 5) =~= seq!['s', 'r', 'c']);
}

proof fn lemma_components_src()
    ensures
        components("src"@).len() > 0,
{
    reveal_strlit("src");
    let s = "src"@;
    assert(s =~= seq!['s', 'r', 'c']);
    reveal_with_fuel(crate::paths::spans_acc, 5);
    assert(crate::paths::spans(s) =~= seq![(0int, 3int)]);
}

/// How a source path is reported: a relative path as it is; an absolute one
/// inside `cwd` as `./` and its path relative to `cwd`; any other as it is.
pub open spec fn normalize_source_path_spec(path: Seq<char>, cwd: Seq<char>) -> Seq<char> {
    if !is_absolute(path) {
        path
    } else {
        match strip_prefix(path, cwd) {
            Some(rel) => "./"@ + rel,
            None => path,
        }
    }
}

/// Normalizes a source path against the working directory `cwd`.
pub fn normalize_source_path(path: &str, cwd: &str) -> (r: String)
    requires
        components(cwd@).len() > 0,
    ensures
        r@ == normalize_source_path_spec(path@, cwd@),
{
    if !is_absolute_exec(path) {
        return own(path);
    }
    match strip_prefix_exec(path, cwd) {
        Some(rel) => concat2("./", rel.as_str()),
        None => own(path),
    }
}

// ---------------------------------------------------------------------------
// Dependency files (`-MMD` output)
// ---------------------------------------------------------------------------

/// The dependency file text with line continuations turned into spaces.
pub open spec fn d_text(content: Seq<char>) -> Seq<char> {
    replace_all(replace_all(content, "\\\n"@, " "@), "\\\r\n"@, " "@)
}

/// A `:` at `i` that ends the target, as opposed to the colon of a Windows
/// drive letter (`C:\` or `C:/` at the very start).
pub open spec fn is_target_colon(t: Seq<char>, i: int) -> bool {
    &&& t[i] == ':'
    &&& !(i == 1 && is_ascii_alpha(t[0]) && i + 1 < t.len() && (t[i + 1] == '\\' || t[i + 1] == '/'))
}

/// One past the first target colon at or after `i`, or 0 when there is none.
pub open spec fn target_end_from(t: Seq<char>, i: int) -> int
    decreases t.len() - i,
{
    if i < 0 || i >= t.len() {
        0
    } else if is_target_colon(t, i) {
        i + 1
    } else {
        target_end_from(t, i + 1)
    }
}

/// One past the target colon, counted in characters, or 0.
pub open spec fn target_end(t: Seq<char>) -> int {
    target_end_from(t, 0)
}

/// The text after the target. The cut is made at the byte offset equal to the
/// character count `target_end`, as the dependency text is sliced by bytes.
pub open spec fn deps_text(t: Seq<char>) -> Seq<char> {
    let te = target_end(t);
    if te > 0 {
        decode_utf8(encode_utf8(t).subrange(te, encode_utf8(t).len() as int))
    } else {
        t
    }
}

/// The dependency text can be cut after the target: the cut falls on a
/// character boundary. It always does when the target is ASCII.
pub open spec fn d_file_cuts(content: Seq<char>) -> bool {
    let t = d_text(content);
    target_end(t) == 0 || is_char_boundary(encode_utf8(t), target_end(t))
}

/// Tokenizer state: paths found, the path being read, and whether the last
/// character was an unconsumed backslash.
pub struct DepTokens {
    pub deps: Seq<Seq<char>>,
    pub current: Seq<char>,
    pub escaped: bool,
}

/// Reads one character: a backslash escapes the next character (a line break
/// after it is dropped), whitespace ends a path, anything else extends it.
pub open spec fn dep_step(st: DepTokens, c: char) -> DepTokens {
    if st.escaped {
        DepTokens {
            deps: st.deps,
            current: if c != '\n' && c != '\r' { st.current.push(c) } else { st.current },
            escaped: false,
        }
    } else if c == '\\' {
        DepTokens { escaped: true, ..st }
    } else if is_whitespace(c) {
        if st.current.len() > 0 {
            DepTokens { deps: st.deps.push(st.current), current: Seq::empty(), escaped: false }
        } else {
            st
        }
    } else {
        DepTokens { current: st.current.push(c), ..st }
    }
}

/// The tokenizer state after reading all of `s`.
pub open spec fn dep_scan(s: Seq<char>) -> DepTokens
    decreases s.len(),
{
    if s.len() == 0 {
        DepTokens { deps: Seq::empty(), current: Seq::empty(), escaped: false }
    } else {
        dep_step(dep_scan(s.drop_last()), s.last())
    }
}

/// The paths listed in `s`, the last unfinished one included.
pub open spec fn dep_tokens(s: Seq<char>) -> Seq<Seq<char>> {
    let st = dep_scan(s);
    if st.current.len() > 0 {
        st.deps.push(st.current)
    } else {
        st.deps
    }
}

/// The prerequisites listed in a dependency file.
pub open spec fn parse_d_file_spec(content: Seq<char>) -> Seq<Seq<char>> {
    dep_tokens(deps_text(d_text(content)))
}

/// Whether [`parse_d_file`] can read `content` (see [`d_file_cuts`]).
pub fn d_file_cuts_exec(content: &str) -> (r: bool)
    ensures
        r == d_file_cuts(content@),
{
    let text = d_file_text(content);
    let te = target_end_exec(text.as_str());
    te == 0 || text.as_str().is_char_boundary(te)
}

fn d_file_text(content: &str) -> (r: String)
    ensures
        r@ == d_text(content@),
{
    proof {
        reveal_strlit("\\\n");
        reveal_strlit("\\\r\n");
    }
    let t1 = replace_exec(content, "\\\n", " ");
    replace_exec(t1.as_str(), "\\\r\n", " ")
}

fn target_end_exec(text: &str) -> (r: usize)
    ensures
        r == target_end(text@),
{
    let chars = chars_of(text);
    let n = chars.len();
    let mut i: usize = 0;
    while i < n
        invariant
            n == chars@.len(),
            chars@ == text@,
            i <= n,
            target_end(text@) == target_end_from(text@, i as int),
        decreases n - i,
    {
        if chars[i] == ':' {
            let drive = i == 1 && ((chars[0] >= 'a' && chars[0] <= 'z') || (chars[0] >= 'A' && chars[0] <= 'Z'))
                && i + 1 < n && (chars[i + 1] == '\\' || chars[i + 1] == '/');
            if !drive {
                return i + 1;
            }
        }
        i = i + 1;
    }
    0
}

/// Lists the prerequisites of a compiler-written dependency file (`target:
/// dep dep ...`), with `\` line continuations and escapes.
pub fn parse_d_file(content: &str) -> (r: Vec<String>)
    requires
        d_file_cuts(content@),
    ensures
        crate::text::views(r@) == parse_d_file_spec(content@),
{
    let text = d_file_text(content);
    let te = target_end_exec(text.as_str());
    let deps_str: &str = if te > 0 {
        let (_, tail) = text.as_str().split_at(te);
        proof {
            encode_utf8_decode_utf8(tail@);
        }
        tail
    } else {
        text.as_str()
    };
    assert(deps_str@ == deps_text(text@));
    let v = chars_of(deps_str);
    let mut deps: Vec<String> = Vec::new();
    let mut current: Vec<char> = Vec::new();
    let mut in_escape = false;
    let mut i: usize = 0;
    while i < v.len()
        invariant
            i <= v@.len(),
            ({
                let st = dep_scan(v@.take(i as int));
                &&& crate::text::views(deps@) == st.deps
                &&& current@ == st.current
                &&& in_escape == st.escaped
            }),
        decreases v.len() - i,
    {
        let c = v[i];
        assert(v@.take(i + 1).drop_last() =~= v@.take(i as int));
        let ghost before = deps@;
        if in_escape {
            if c != '\n' && c != '\r' {
                current.push(c);
            }
            in_escape = false;
        } else if c == '\\' {
            in_escape = true;
        } else if is_whitespace_exec(c) {
            if current.len() > 0 {
                let p = string_of(&current);
                deps.push(p);
                assert(crate::text::views(deps@) =~= crate::text::views(before).push(p@));
                current = Vec::new();
            }
        } else {
            current.push(c);
        }
        i = i + 1;
    }
    assert(v@.take(v@.len() as int) =~= v@);
    if current.len() > 0 {
        let ghost before = deps@;
        let p = string_of(&current);
        deps.push(p);
        assert(crate::text::views(deps@) =~= crate::text::views(before).push(p@));
    }
    deps
}

// ---------------------------------------------------------------------------
// Rebuild decisions and source selection
// ---------------------------------------------------------------------------

/// What is known of a file named in a dependency file: its path, whether it
/// exists, and its modification time when that could be read (nanoseconds
/// since the Unix epoch).
#[derive(Debug)]
pub struct DepStamp {
    pub path: String,
    pub present: bool,
    pub time: Option<u128>,
}

/// A dependency forces a rebuild when it is neither the object nor the source
/// itself (as paths) and it is missing or newer than the object.
pub open spec fn dep_forces_rebuild(d: DepStamp, source: Seq<char>, object: Seq<char>, obj_time: u128) -> bool {
    &&& components(d.path@) != components(object)
    &&& components(d.path@) != components(source)
    &&& (!d.present || match d.time {
        Some(t) => t > obj_time,
        None => false,
    })
}

/// Some dependency forces a rebuild.
pub open spec fn some_dep_forces_rebuild(ds: Seq<DepStamp>, source: Seq<char>, object: Seq<char>, obj_time: u128) -> bool {
    exists|k: int| 0 <= k < ds.len() && dep_forces_rebuild(#[trigger] ds[k], source, object, obj_time)
}

/// An object is rebuilt when its time or its source's time is unknown, when
/// the source is newer, or when a dependency listed in its dependency file
/// (`deps`, when that file could be read) forces it.
pub open spec fn needs_rebuild_spec(
    source: Seq<char>,
    object: Seq<char>,
    src_time: Option<u128>,
    obj_time: Option<u128>,
    deps: Option<Seq<DepStamp>>,
) -> bool {
    match obj_time {
        None => true,
        Some(o) => match src_time {
            None => true,
            Some(s) => s > o || match deps {
                Some(ds) => some_dep_forces_rebuild(ds, source, object, o),
                None => false,
            },
        },
    }
}

/// Whether an object must be rebuilt (see `needs_rebuild_spec`).
pub fn needs_rebuild(
    source: &str,
    object: &str,
    src_time: Option<u128>,
    obj_time: Option<u128>,
    deps: Option<&[DepStamp]>,
) -> (r: bool)
    ensures
        r == needs_rebuild_spec(
            source@,
            object@,
            src_time,
            obj_time,
            match deps {
                Some(d) => Some(d@),
                None => None,
            },
        ),
{
    let o = match obj_time {
        Some(o) => o,
        None => return true,
    };
    match src_time {
        Some(s) => if s > o {
            return true;
        },
        None => return true,
    }
    let ds = match deps {
        Some(d) => d,
        None => return false,
    };
    let mut i: usize = 0;
    while i < ds.len()
        invariant
            i <= ds@.len(),
            obj_time == Some(o),
            src_time is Some && !(src_time->Some_0 > o),
            deps == Some(ds),
            forall|k: int| 0 <= k < i ==> !dep_forces_rebuild(#[trigger] ds@[k], source@, object@, o),
        decreases ds.len() - i,
    {
        let d = &ds[i];
        let own_file = crate::paths::path_eq(d.path.as_str(), object) || crate::paths::path_eq(d.path.as_str(), source);
        if !own_file {
            let newer = match d.time {
                Some(t) => t > o,
                None => false,
            };
            if !d.present || newer {
                assert(dep_forces_rebuild(ds@[i as int], source@, object@, o));
                assert(exists|k: int| 0 <= k < ds@.len() && dep_forces_rebuild(#[trigger] ds@[k], source@, object@, o));
                assert(some_dep_forces_rebuild(ds@, source@, object@, o));
                return true;
            }
        }
        i = i + 1;
    }
    false
}


/// The `-x` language a C compiler needs for an assembly source: sources named
/// `.s` or `.S` are assembled through the preprocessor; others need none.
pub open spec fn asm_lang_flag_spec(source: Seq<char>) -> Option<Seq<char>> {
    if crate::text::has_suffix(source, ".s"@) || crate::text::has_suffix(source, ".S"@) {
        Some("assembler-with-cpp"@)
    } else {
        None
    }
}

/// The `-x` language of a source, if it needs one (see `asm_lang_flag_spec`).
pub fn asm_lang_flag(source: &str) -> (r: Option<&'static str>)
    ensures
        crate::platform::opt_view(r) == asm_lang_flag_spec(source@),
{
    if crate::text::ends_with(source, ".s") || crate::text::ends_with(source, ".S") {
        Some("assembler-with-cpp")
    } else {
        None
    }
}


/// An object whose source is not newer is still rebuilt when any one of the
/// files its dependency file lists (other than the source and the object
/// themselves) is missing or newer than the object, wherever it is listed.
pub proof fn lemma_stale_dependency_forces_rebuild(
    source: Seq<char>,
    object: Seq<char>,
    src_time: u128,
    obj_time: u128,
    deps: Seq<DepStamp>,
    k: int,
)
    requires
        0 <= k < deps.len(),
        components(deps[k].path@) != components(object),
        components(deps[k].path@) != components(source),
        !deps[k].present || (deps[k].time is Some && deps[k].time->Some_0 > obj_time),
    ensures
        needs_rebuild_spec(source, object, Some(src_time), Some(obj_time), Some(deps)),
{
    assert(dep_forces_rebuild(deps[k], source, object, obj_time));
}

/// An up-to-date object (its source not newer) with no listed dependency that
/// is missing or newer, other than the source and the object, is kept.
pub proof fn lemma_fresh_object_kept(
    source: Seq<char>,
    object: Seq<char>,
    src_time: u128,
    obj_time: u128,
    deps: Seq<DepStamp>,
)
    requires
        src_time <= obj_time,
        forall|k: int|
            0 <= k < deps.len() && components((#[trigger] deps[k]).path@) != components(object) && components(
                deps[k].path@,
            ) != components(source) ==> deps[k].present && !(deps[k].time is Some && deps[k].time->Some_0 > obj_time),
    ensures
        !needs_rebuild_spec(source, object, Some(src_time), Some(obj_time), Some(deps)),
{
}

} // verus!
