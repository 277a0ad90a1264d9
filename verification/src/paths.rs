//! A model of POSIX path strings as `std::path::Path` treats them on Unix.
//!
//! A path is a string. Its components are an optional root (`/`) or leading
//! current-directory marker (`.`), followed by the pieces between separators,
//! where empty pieces and `.` pieces are skipped. The functions here give the
//! component-based operations the build tool uses (`join`, `file_name`,
//! `extension`, `file_stem`, `with_extension`, `strip_prefix`, `starts_with`,
//! and `parent` of a path that ends in a named component) as spec functions
//! over `Seq<char>`, with executable versions.
use vstd::prelude::*;

use crate::text::{chars_eq, chars_of, string_of};

verus! {

// ---------------------------------------------------------------------------
// Specifications
// ---------------------------------------------------------------------------

/// The piece `[a, b)` is a real component: neither empty nor `.`.
pub open spec fn is_real_piece(s: Seq<char>, a: int, b: int) -> bool {
    !(b == a || (b == a + 1 && s[a] == '.'))
}

/// Spans `[a, b)` of the components of `s`, scanning from position `i` with
/// the current piece starting at `start`.
pub open spec fn spans_acc(s: Seq<char>, start: int, i: int) -> Seq<(int, int)>
    decreases s.len() - i,
{
    if i >= s.len() {
        if is_real_piece(s, start, s.len() as int) {
            seq![(start, s.len() as int)]
        } else {
            Seq::empty()
        }
    } else if s[i] == '/' {
        let head = if is_real_piece(s, start, i) {
            seq![(start, i)]
        } else {
            Seq::<(int, int)>::empty()
        };
        head + spans_acc(s, i + 1, i + 1)
    } else {
        spans_acc(s, start, i + 1)
    }
}

/// Spans of the named components of `s` (everything but root and a leading `.`).
pub open spec fn spans(s: Seq<char>) -> Seq<(int, int)> {
    spans_acc(s, 0, 0)
}

/// The text of each named component.
pub open spec fn pieces(s: Seq<char>) -> Seq<Seq<char>> {
    spans(s).map_values(|sp: (int, int)| s.subrange(sp.0, sp.1))
}

/// The path starts at the root.
pub open spec fn is_absolute(s: Seq<char>) -> bool {
    s.len() > 0 && s[0] == '/'
}

/// The path starts with a current-directory component.
pub open spec fn leads_with_cur_dir(s: Seq<char>) -> bool {
    !is_absolute(s) && s.len() > 0 && s[0] == '.' && (s.len() == 1 || s[1] == '/')
}

/// The leading marker component: `/`, `.`, or none.
pub open spec fn lead(s: Seq<char>) -> Seq<Seq<char>> {
    if is_absolute(s) {
        seq![seq!['/']]
    } else if leads_with_cur_dir(s) {
        seq![seq!['.']]
    } else {
        Seq::empty()
    }
}

/// All components of `s`, with the root written `/` and the current directory `.`.
pub open spec fn components(s: Seq<char>) -> Seq<Seq<char>> {
    lead(s) + pieces(s)
}

/// `Path::join` on Unix: an absolute `p` replaces `base`; otherwise a separator
/// is put between them unless `base` is empty or already ends with one.
pub open spec fn join(base: Seq<char>, p: Seq<char>) -> Seq<char> {
    if is_absolute(p) {
        p
    } else if base.len() > 0 && base.last() != '/' {
        base + seq!['/'] + p
    } else {
        base + p
    }
}

/// `..`
pub open spec fn dot_dot() -> Seq<char> {
    seq!['.', '.']
}

/// `Path::file_name`: the last component when it is a named one other than `..`.
pub open spec fn file_name(s: Seq<char>) -> Option<Seq<char>> {
    let sp = spans(s);
    if sp.len() == 0 {
        None
    } else if s.subrange(sp.last().0, sp.last().1) == dot_dot() {
        None
    } else {
        Some(s.subrange(sp.last().0, sp.last().1))
    }
}

/// `Path::parent` of a path whose last component is named: the text up to the
/// end of the component before it, else the root or the leading `.`, else
/// nothing.
pub open spec fn parent_of_named(s: Seq<char>) -> Seq<char> {
    let sp = spans(s);
    if sp.len() >= 2 {
        s.take(sp[sp.len() - 2].1)
    } else if is_absolute(s) {
        seq!['/']
    } else if leads_with_cur_dir(s) {
        seq!['.']
    } else {
        Seq::empty()
    }
}

/// Index of the last `.` in `name`, or -1.
pub open spec fn last_dot(name: Seq<char>) -> int
    decreases name.len(),
{
    if name.len() == 0 {
        -1
    } else if name.last() == '.' {
        name.len() - 1
    } else {
        last_dot(name.drop_last())
    }
}

/// Length of the stem of a file name: the text before the last `.`, unless the
/// only dot is the first character or there is none.
pub open spec fn stem_len(name: Seq<char>) -> int {
    if last_dot(name) <= 0 {
        name.len() as int
    } else {
        last_dot(name)
    }
}

/// `OsStr` extension of a file name.
pub open spec fn name_extension(name: Seq<char>) -> Option<Seq<char>> {
    if last_dot(name) <= 0 {
        None
    } else {
        Some(name.subrange(last_dot(name) + 1, name.len() as int))
    }
}

/// `Path::extension`.
pub open spec fn extension(s: Seq<char>) -> Option<Seq<char>> {
    match file_name(s) {
        None => None,
        Some(name) => name_extension(name),
    }
}

/// `Path::file_stem`.
pub open spec fn file_stem(s: Seq<char>) -> Option<Seq<char>> {
    match file_name(s) {
        None => None,
        Some(name) => Some(name.subrange(0, stem_len(name))),
    }
}

/// `Path::with_extension` / `PathBuf::set_extension`: without a file name the
/// path is unchanged; otherwise everything after the stem is dropped and
/// `.ext` is appended when `ext` is not empty.
pub open spec fn with_extension(s: Seq<char>, ext: Seq<char>) -> Seq<char> {
    match file_name(s) {
        None => s,
        Some(name) => {
            let end = spans(s).last().0 + stem_len(name);
            if ext.len() == 0 {
                s.subrange(0, end)
            } else {
                s.subrange(0, end) + seq!['.'] + ext
            }
        },
    }
}

/// `Path::starts_with`: the components of `base` are a prefix of those of `s`.
pub open spec fn starts_with(s: Seq<char>, base: Seq<char>) -> bool {
    let a = components(s);
    let b = components(base);
    b.len() <= a.len() && a.subrange(0, b.len() as int) == b
}

/// `Path::strip_prefix`: the text from the first component of `s` that is not
/// matched by `base` to the end of its last component.
pub open spec fn strip_prefix(s: Seq<char>, base: Seq<char>) -> Option<Seq<char>> {
    if !starts_with(s, base) {
        None
    } else {
        let m = pieces(base).len();
        let sp = spans(s);
        if m >= sp.len() {
            Some(Seq::empty())
        } else {
            Some(s.subrange(sp[m as int].0, sp.last().1))
        }
    }
}

// ---------------------------------------------------------------------------
// Lemmas
// ---------------------------------------------------------------------------

/// Spans lie inside the string, are ordered, and hold no separator.
pub proof fn lemma_spans_acc_wf(s: Seq<char>, start: int, i: int)
    requires
        0 <= start <= i <= s.len(),
        forall|k: int| start <= k < i ==> s[k] != '/',
    ensures
        forall|k: int|
            0 <= k < spans_acc(s, start, i).len() ==> {
                let sp = #[trigger] spans_acc(s, start, i)[k];
                &&& start <= sp.0 < sp.1 <= s.len()
                &&& forall|t: int| sp.0 <= t < sp.1 ==> s[t] != '/'
                &&& (sp.1 == s.len() || s[sp.1] == '/')
            },
        forall|k1: int, k2: int|
            0 <= k1 < k2 < spans_acc(s, start, i).len() ==> spans_acc(s, start, i)[k1].1
                < spans_acc(s, start, i)[k2].0,
    decreases s.len() - i,
{
    let r = spans_acc(s, start, i);
    if i >= s.len() {
        if is_real_piece(s, start, s.len() as int) {
            assert(r == seq![(start, s.len() as int)]);
            assert(r.len() == 1);
            assert(r[0] == (start, s.len() as int));
        } else {
            assert(r.len() == 0);
        }
    } else if s[i] == '/' {
        lemma_spans_acc_wf(s, i + 1, i + 1);
        let rest = spans_acc(s, i + 1, i + 1);
        let head = if is_real_piece(s, start, i) {
            seq![(start, i)]
        } else {
            Seq::<(int, int)>::empty()
        };
        assert(r == head + rest);
        assert forall|k: int| 0 <= k < r.len() implies {
            let sp = #[trigger] r[k];
            &&& start <= sp.0 < sp.1 <= s.len()
            &&& forall|t: int| sp.0 <= t < sp.1 ==> s[t] != '/'
            &&& (sp.1 == s.len() || s[sp.1] == '/')
        } by {
            if k < head.len() {
                assert(r[k] == (start, i));
            } else {
                assert(r[k] == rest[k - head.len()]);
            }
        }
        assert forall|k1: int, k2: int| 0 <= k1 < k2 < r.len() implies r[k1].1 < r[k2].0 by {
            if k1 < head.len() {
                assert(r[k2] == rest[k2 - head.len()]);
                assert(rest[k2 - head.len()].0 >= i + 1);
            } else {
                assert(r[k1] == rest[k1 - head.len()]);
                assert(r[k2] == rest[k2 - head.len()]);
            }
        }
    } else {
        lemma_spans_acc_wf(s, start, i + 1);
        assert(r == spans_acc(s, start, i + 1));
    }
}

/// Well-formedness of the spans of a whole string.
pub proof fn lemma_spans_wf(s: Seq<char>)
    ensures
        forall|k: int|
            0 <= k < spans(s).len() ==> {
                let sp = #[trigger] spans(s)[k];
                &&& 0 <= sp.0 < sp.1 <= s.len()
                &&& forall|t: int| sp.0 <= t < sp.1 ==> s[t] != '/'
                &&& (sp.1 == s.len() || s[sp.1] == '/')
            },
        forall|k1: int, k2: int|
            0 <= k1 < k2 < spans(s).len() ==> spans(s)[k1].1 < spans(s)[k2].0,
{
    lemma_spans_acc_wf(s, 0, 0);
}

/// `last_dot` is -1 or an index of the name.
pub proof fn lemma_last_dot_range(name: Seq<char>)
    ensures
        -1 <= last_dot(name) < name.len(),
        last_dot(name) >= 0 ==> name[last_dot(name)] == '.',
    decreases name.len(),
{
    if name.len() > 0 && name.last() != '.' {
        lemma_last_dot_range(name.drop_last());
    }
}

// ---------------------------------------------------------------------------
// Executable versions
// ---------------------------------------------------------------------------

/// Computes the component spans of a character vector.
pub fn spans_exec(v: &[char]) -> (r: Vec<(usize, usize)>)
    ensures
        r@.len() == spans(v@).len(),
        forall|k: int|
            0 <= k < r@.len() ==> (r@[k].0 as int, r@[k].1 as int) == #[trigger] spans(v@)[k],
{
    let n = v.len();
    let mut out: Vec<(usize, usize)> = Vec::new();
    let mut start: usize = 0;
    let mut i: usize = 0;
    let ghost outs: Seq<(int, int)> = Seq::empty();
    while i < n
        invariant
            n == v@.len(),
            start <= i <= n,
            spans(v@) == outs + spans_acc(v@, start as int, i as int),
            out@.len() == outs.len(),
            forall|k: int|
                0 <= k < out@.len() ==> (out@[k].0 as int, out@[k].1 as int) == #[trigger] outs[k],
        decreases n - i,
    {
        if v[i] == '/' {
            let keep = !(i == start || (i == start + 1 && v[start] == '.'));
            let ghost old_outs = outs;
            if keep {
                out.push((start, i));
                proof {
                    outs = outs.push((start as int, i as int));
                }
            }
            proof {
                if keep {
                    assert(old_outs + (seq![(start as int, i as int)] + spans_acc(
                        v@,
                        i + 1,
                        i + 1,
                    )) =~= outs + spans_acc(v@, i + 1, i + 1));
                } else {
                    assert(old_outs + (Seq::<(int, int)>::empty() + spans_acc(v@, i + 1, i + 1))
                        =~= outs + spans_acc(v@, i + 1, i + 1));
                }
            }
            start = i + 1;
        }
        i = i + 1;
    }
    let ghost old_outs = outs;
    if !(n == start || (n == start + 1 && v[start] == '.')) {
        out.push((start, n));
        proof {
            outs = outs.push((start as int, n as int));
            assert(old_outs + seq![(start as int, n as int)] =~= outs);
        }
    } else {
        assert(old_outs + Seq::<(int, int)>::empty() =~= outs);
    }
    out
}

/// Characters `v[a..b]`.
pub fn sub_chars(v: &[char], a: usize, b: usize) -> (r: Vec<char>)
    requires
        a <= b <= v@.len(),
    ensures
        r@ == v@.subrange(a as int, b as int),
{
    let mut r: Vec<char> = Vec::new();
    let mut k: usize = a;
    while k < b
        invariant
            a <= k <= b <= v@.len(),
            r@ == v@.subrange(a as int, k as int),
        decreases b - k,
    {
        r.push(v[k]);
        assert(v@.subrange(a as int, k + 1) =~= v@.subrange(a as int, k as int).push(v@[k as int]));
        k = k + 1;
    }
    r
}

/// `Path::join` (Unix).
pub fn join_exec(base: &str, p: &str) -> (r: String)
    ensures
        r@ == join(base@, p@),
{
    let b = chars_of(base);
    let q = chars_of(p);
    if q.len() > 0 && q[0] == '/' {
        return String::from_str(p);
    }
    let mut r = String::from_str(base);
    if b.len() > 0 && b[b.len() - 1] != '/' {
        crate::text::push_char(&mut r, '/');
    }
    r.append(p);
    r
}

/// `Path::is_absolute` (Unix).
pub fn is_absolute_exec(s: &str) -> (r: bool)
    ensures
        r == is_absolute(s@),
{
    let v = chars_of(s);
    v.len() > 0 && v[0] == '/'
}

/// Whether `v[a..b]` is `..`.
fn is_dot_dot(v: &[char], a: usize, b: usize) -> (r: bool)
    requires
        a <= b <= v@.len(),
    ensures
        r == (v@.subrange(a as int, b as int) == dot_dot()),
{
    assert(dot_dot().len() == 2 && dot_dot()[0] == '.' && dot_dot()[1] == '.');
    if b - a == 2 && v[a] == '.' && v[a + 1] == '.' {
        assert(v@.subrange(a as int, b as int) =~= dot_dot());
        true
    } else {
        if b - a == 2 {
            assert(v@.subrange(a as int, b as int)[0] == v@[a as int]);
            assert(v@.subrange(a as int, b as int)[1] == v@[a + 1]);
        }
        false
    }
}

/// Span of the file name of `v`, if any.
pub fn file_name_span(v: &[char]) -> (r: Option<(usize, usize)>)
    ensures
        match r {
            None => file_name(v@) is None,
            Some((a, b)) => {
                &&& a <= b <= v@.len()
                &&& spans(v@).len() > 0
                &&& spans(v@).last() == (a as int, b as int)
                &&& file_name(v@) == Some(v@.subrange(a as int, b as int))
            },
        },
{
    let sp = spans_exec(v);
    proof {
        lemma_spans_wf(v@);
    }
    if sp.len() == 0 {
        return None;
    }
    let (a, b) = sp[sp.len() - 1];
    assert(spans(v@)[sp@.len() - 1] == (a as int, b as int));
    if is_dot_dot(v, a, b) {
        None
    } else {
        Some((a, b))
    }
}

/// `Path::file_name` (Unix).
pub fn file_name_exec(s: &str) -> (r: Option<String>)
    ensures
        match r {
            None => file_name(s@) is None,
            Some(n) => file_name(s@) == Some(n@),
        },
{
    let v = chars_of(s);
    match file_name_span(&v) {
        None => None,
        Some((a, b)) => {
            let w = sub_chars(&v, a, b);
            Some(string_of(&w))
        },
    }
}

/// `Path::parent` of a path whose last component is named.
pub fn parent_of_named_exec(s: &str) -> (r: String)
    requires
        spans(s@).len() > 0,
    ensures
        r@ == parent_of_named(s@),
{
    let v = chars_of(s);
    let sp = spans_exec(&v);
    proof {
        lemma_spans_wf(v@);
    }
    if sp.len() >= 2 {
        let (a, b) = sp[sp.len() - 2];
        assert(spans(v@)[sp@.len() - 2] == (a as int, b as int));
        let w = sub_chars(&v, 0, b);
        assert(w@ =~= v@.take(b as int));
        return string_of(&w);
    }
    if v.len() > 0 && v[0] == '/' {
        let mut r = String::new();
        crate::text::push_char(&mut r, '/');
        assert(r@ =~= seq!['/']);
        return r;
    }
    if v.len() > 0 && v[0] == '.' && (v.len() == 1 || v[1] == '/') {
        let mut r = String::new();
        crate::text::push_char(&mut r, '.');
        assert(r@ =~= seq!['.']);
        return r;
    }
    let r = String::new();
    assert(r@ =~= Seq::<char>::empty());
    r
}

/// One more than the index of the last `.` in `name` (0 when there is none).
fn last_dot_exec(name: &[char]) -> (r: usize)
    ensures
        r == last_dot(name@) + 1,
        r <= name@.len(),
{
    proof {
        lemma_last_dot_range(name@);
    }
    let mut i: usize = name.len();
    assert(name@.subrange(0, name@.len() as int) =~= name@);
    while i > 0 && name[i - 1] != '.'
        invariant
            i <= name@.len(),
            last_dot(name@) == last_dot(name@.subrange(0, i as int)),
        decreases i,
    {
        assert(name@.subrange(0, i as int).drop_last() =~= name@.subrange(0, i - 1));
        i = i - 1;
    }
    if i > 0 {
        assert(name@.subrange(0, i as int).last() == name@[i - 1]);
    }
    i
}

/// Stem length of a file name.
fn stem_len_exec(name: &[char]) -> (r: usize)
    ensures
        r == stem_len(name@),
        r <= name@.len(),
{
    let d = last_dot_exec(name);
    if d <= 1 {
        name.len()
    } else {
        d - 1
    }
}

/// `Path::extension` (Unix).
pub fn extension_exec(s: &str) -> (r: Option<String>)
    ensures
        match r {
            None => extension(s@) is None,
            Some(e) => extension(s@) == Some(e@),
        },
{
    let v = chars_of(s);
    match file_name_span(&v) {
        None => None,
        Some((a, b)) => {
            let name = sub_chars(&v, a, b);
            let d = last_dot_exec(&name);
            if d <= 1 {
                None
            } else {
                let e = sub_chars(&name, d, name.len());
                Some(string_of(&e))
            }
        },
    }
}

/// `Path::file_stem` (Unix).
pub fn file_stem_exec(s: &str) -> (r: Option<String>)
    ensures
        match r {
            None => file_stem(s@) is None,
            Some(e) => file_stem(s@) == Some(e@),
        },
{
    let v = chars_of(s);
    match file_name_span(&v) {
        None => None,
        Some((a, b)) => {
            let name = sub_chars(&v, a, b);
            let k = stem_len_exec(&name);
            let e = sub_chars(&name, 0, k);
            Some(string_of(&e))
        },
    }
}

/// `Path::with_extension` (Unix).
pub fn with_extension_exec(s: &str, ext: &str) -> (r: String)
    ensures
        r@ == with_extension(s@, ext@),
{
    let v = chars_of(s);
    match file_name_span(&v) {
        None => String::from_str(s),
        Some((a, b)) => {
            let name = sub_chars(&v, a, b);
            let k = stem_len_exec(&name);
            let head = sub_chars(&v, 0, a + k);
            let mut r = string_of(&head);
            let e = chars_of(ext);
            if e.len() > 0 {
                crate::text::push_char(&mut r, '.');
                r.append(ext);
            }
            r
        },
    }
}

/// `Path` equality: the same components.
pub fn path_eq(a: &str, b: &str) -> (r: bool)
    ensures
        r == (components(a@) == components(b@)),
{
    let x = components_exec(&chars_of(a));
    let y = components_exec(&chars_of(b));
    if x.len() != y.len() {
        assert(components(a@).len() != components(b@).len());
        return false;
    }
    let mut i: usize = 0;
    while i < x.len()
        invariant
            x@.len() == y@.len(),
            x@.len() == components(a@).len(),
            y@.len() == components(b@).len(),
            forall|k: int| 0 <= k < x@.len() ==> #[trigger] x@[k]@ == components(a@)[k],
            forall|k: int| 0 <= k < y@.len() ==> #[trigger] y@[k]@ == components(b@)[k],
            i <= x@.len(),
            forall|k: int| 0 <= k < i ==> components(a@)[k] == components(b@)[k],
        decreases x.len() - i,
    {
        if !chars_eq(x[i].as_slice(), y[i].as_slice()) {
            assert(x@[i as int]@ != y@[i as int]@);
            assert(components(a@)[i as int] != components(b@)[i as int]);
            return false;
        }
        i = i + 1;
    }
    assert(components(a@) =~= components(b@));
    true
}

/// The components of `v`: its leading marker, then its named pieces.
pub fn components_exec(v: &[char]) -> (r: Vec<Vec<char>>)
    ensures
        r@.len() == components(v@).len(),
        forall|k: int| 0 <= k < r@.len() ==> #[trigger] r@[k]@ == components(v@)[k],
{
    let sp = spans_exec(v);
    proof {
        lemma_spans_wf(v@);
    }
    let mut out: Vec<Vec<char>> = Vec::new();
    let n = v.len();
    if n > 0 && v[0] == '/' {
        out.push(vec!['/']);
    } else if n > 0 && v[0] == '.' && (n == 1 || v[1] == '/') {
        out.push(vec!['.']);
    }
    let ghost ld = lead(v@);
    assert(out@.len() == ld.len());
    assert(forall|k: int| 0 <= k < out@.len() ==> #[trigger] out@[k]@ == ld[k]);
    let mut i: usize = 0;
    while i < sp.len()
        invariant
            ld == lead(v@),
            sp@.len() == spans(v@).len(),
            forall|k: int|
                0 <= k < sp@.len() ==> (sp@[k].0 as int, sp@[k].1 as int) == #[trigger] spans(v@)[k],
            forall|k: int|
                0 <= k < spans(v@).len() ==> {
                    let p = #[trigger] spans(v@)[k];
                    0 <= p.0 < p.1 <= v@.len()
                },
            i <= sp@.len(),
            out@.len() == ld.len() + i,
            forall|k: int| 0 <= k < out@.len() ==> #[trigger] out@[k]@ == (ld + pieces(v@))[k],
        decreases sp.len() - i,
    {
        let (a, b) = sp[i];
        assert(spans(v@)[i as int] == (a as int, b as int));
        let w = sub_chars(v, a, b);
        out.push(w);
        assert(pieces(v@)[i as int] == v@.subrange(a as int, b as int));
        i = i + 1;
    }
    out
}

/// `Path::starts_with` (Unix): compares whole components.
pub fn starts_with_exec(s: &str, base: &str) -> (r: bool)
    ensures
        r == starts_with(s@, base@),
{
    let sv = chars_of(s);
    let bv = chars_of(base);
    let a = components_exec(&sv);
    let b = components_exec(&bv);
    if b.len() > a.len() {
        return false;
    }
    let mut i: usize = 0;
    while i < b.len()
        invariant
            b@.len() <= a@.len(),
            a@.len() == components(s@).len(),
            b@.len() == components(base@).len(),
            forall|k: int| 0 <= k < a@.len() ==> #[trigger] a@[k]@ == components(s@)[k],
            forall|k: int| 0 <= k < b@.len() ==> #[trigger] b@[k]@ == components(base@)[k],
            i <= b@.len(),
            forall|k: int| 0 <= k < i ==> components(s@)[k] == components(base@)[k],
        decreases b.len() - i,
    {
        if !chars_eq(&a[i], &b[i]) {
            assert(components(s@).subrange(0, b@.len() as int)[i as int] == components(s@)[i as int]);
            return false;
        }
        i = i + 1;
    }
    assert(components(s@).subrange(0, b@.len() as int) =~= components(base@));
    true
}

/// `Path::strip_prefix` (Unix) for a prefix with at least one component.
pub fn strip_prefix_exec(s: &str, base: &str) -> (r: Option<String>)
    requires
        components(base@).len() > 0,
    ensures
        match r {
            None => strip_prefix(s@, base@) is None,
            Some(t) => strip_prefix(s@, base@) == Some(t@),
        },
{
    if !starts_with_exec(s, base) {
        return None;
    }
    let sv = chars_of(s);
    let bv = chars_of(base);
    let sp = spans_exec(&sv);
    let bp = spans_exec(&bv);
    proof {
        lemma_spans_wf(s@);
    }
    let m = bp.len();
    assert(pieces(base@).len() == m);
    if m >= sp.len() {
        return Some(String::new());
    }
    let (a, _) = sp[m];
    let (_, e) = sp[sp.len() - 1];
    assert(spans(s@)[m as int].0 == a);
    assert(spans(s@).last().1 == e);
    assert(spans(s@)[m as int].1 <= e) by {
        if m < sp.len() - 1 {
            assert(spans(s@)[m as int].1 < spans(s@)[sp.len() - 1].0);
        }
    }
    let w = sub_chars(&sv, a, e);
    Some(string_of(&w))
}

/// The path has an extension.
pub open spec fn has_extension_spec(s: Seq<char>) -> bool {
    extension(s) is Some
}

/// `Path::extension().is_some()` (Unix).
pub fn has_extension(s: &str) -> (r: bool)
    ensures
        r == has_extension_spec(s@),
{
    extension_exec(s).is_some()
}

} // verus!
