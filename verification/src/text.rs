//! Character-level string helpers with specifications over `Seq<char>`.
//!
//! Every executable helper works on the characters of its arguments and is
//! specified by a spec function over `Seq<char>`.
use vstd::prelude::*;

verus! {

// ---------------------------------------------------------------------------
// Specifications
// ---------------------------------------------------------------------------

/// `p` is a prefix of `s`.
pub open spec fn has_prefix(s: Seq<char>, p: Seq<char>) -> bool {
    p.len() <= s.len() && s.subrange(0, p.len() as int) == p
}

/// `p` is a suffix of `s`.
pub open spec fn has_suffix(s: Seq<char>, p: Seq<char>) -> bool {
    p.len() <= s.len() && s.subrange(s.len() - p.len(), s.len() as int) == p
}

/// `p` occurs in `s` starting at position `i`.
pub open spec fn occurs_at(s: Seq<char>, p: Seq<char>, i: int) -> bool {
    0 <= i && i + p.len() <= s.len() && s.subrange(i, i + p.len()) == p
}

/// `p` occurs somewhere in `s`.
pub open spec fn contains(s: Seq<char>, p: Seq<char>) -> bool {
    exists|i: int| occurs_at(s, p, i)
}

/// `c` occurs in `s`.
pub open spec fn has_char(s: Seq<char>, c: char) -> bool {
    exists|i: int| 0 <= i < s.len() && s[i] == c
}

/// The Unicode `White_Space` property, as used by `char::is_whitespace`.
pub open spec fn is_whitespace(c: char) -> bool {
    ||| ('\t' <= c && c <= '\r')
    ||| c == ' '
    ||| c == '\u{85}'
    ||| c == '\u{a0}'
    ||| c == '\u{1680}'
    ||| ('\u{2000}' <= c && c <= '\u{200a}')
    ||| c == '\u{2028}'
    ||| c == '\u{2029}'
    ||| c == '\u{202f}'
    ||| c == '\u{205f}'
    ||| c == '\u{3000}'
}

/// Unicode general category `Cc`, as used by `char::is_control`.
pub open spec fn is_control(c: char) -> bool {
    (c as u32) <= 0x1f || (0x7f <= (c as u32) && (c as u32) <= 0x9f)
}

/// ASCII letters.
pub open spec fn is_ascii_alpha(c: char) -> bool {
    ('a' <= c && c <= 'z') || ('A' <= c && c <= 'Z')
}

/// ASCII digits.
pub open spec fn is_ascii_digit(c: char) -> bool {
    '0' <= c && c <= '9'
}

/// ASCII letters and digits.
pub open spec fn is_ascii_alnum(c: char) -> bool {
    is_ascii_alpha(c) || is_ascii_digit(c)
}

/// Maps ASCII upper-case letters to lower case and keeps every other character.
pub open spec fn lower_char(c: char) -> char {
    if 'A' <= c && c <= 'Z' {
        ((c as u32) + 32) as char
    } else {
        c
    }
}

/// ASCII lower-casing of a whole string.
pub open spec fn lower(s: Seq<char>) -> Seq<char> {
    s.map_values(|c: char| lower_char(c))
}

/// Removes leading whitespace.
pub open spec fn trim_start(s: Seq<char>) -> Seq<char>
    decreases s.len(),
{
    if s.len() > 0 && is_whitespace(s[0]) {
        trim_start(s.drop_first())
    } else {
        s
    }
}

/// Removes trailing whitespace.
pub open spec fn trim_end(s: Seq<char>) -> Seq<char>
    decreases s.len(),
{
    if s.len() > 0 && is_whitespace(s.last()) {
        trim_end(s.drop_last())
    } else {
        s
    }
}

/// Removes leading and trailing whitespace (`str::trim`).
pub open spec fn trim(s: Seq<char>) -> Seq<char> {
    trim_end(trim_start(s))
}

/// Removes every leading repetition of the non-empty pattern `p` (`str::trim_start_matches`).
pub open spec fn trim_start_matches(s: Seq<char>, p: Seq<char>) -> Seq<char>
    decreases s.len(),
{
    if p.len() > 0 && has_prefix(s, p) {
        trim_start_matches(s.subrange(p.len() as int, s.len() as int), p)
    } else {
        s
    }
}

/// Removes every trailing occurrence of a character satisfying `f` (`str::trim_end_matches`).
pub open spec fn trim_end_chars(s: Seq<char>, f: spec_fn(char) -> bool) -> Seq<char>
    decreases s.len(),
{
    if s.len() > 0 && f(s.last()) {
        trim_end_chars(s.drop_last(), f)
    } else {
        s
    }
}

/// Replaces every non-overlapping occurrence of the non-empty pattern `p`,
/// scanning from the left (`str::replace`).
pub open spec fn replace_all(s: Seq<char>, p: Seq<char>, r: Seq<char>) -> Seq<char>
    decreases s.len(),
{
    if p.len() == 0 || s.len() < p.len() {
        s
    } else if s.subrange(0, p.len() as int) == p {
        r + replace_all(s.subrange(p.len() as int, s.len() as int), p, r)
    } else {
        seq![s[0]] + replace_all(s.drop_first(), p, r)
    }
}

/// The string views of a vector of strings.
pub open spec fn views(v: Seq<String>) -> Seq<Seq<char>> {
    v.map_values(|s: String| s@)
}

/// Joins `parts` with `sep` between neighbours (`[String]::join`).
pub open spec fn join(parts: Seq<Seq<char>>, sep: Seq<char>) -> Seq<char>
    decreases parts.len(),
{
    if parts.len() == 0 {
        Seq::empty()
    } else if parts.len() == 1 {
        parts[0]
    } else {
        join(parts.drop_last(), sep) + sep + parts.last()
    }
}

// ---------------------------------------------------------------------------
// Lemmas
// ---------------------------------------------------------------------------

/// Unfolding `replace_all` at a position where the pattern occurs.
pub proof fn lemma_replace_step_match(s: Seq<char>, p: Seq<char>, r: Seq<char>, i: int)
    requires
        p.len() > 0,
        occurs_at(s, p, i),
    ensures
        replace_all(s.subrange(i, s.len() as int), p, r) == r + replace_all(
            s.subrange(i + p.len(), s.len() as int),
            p,
            r,
        ),
{
    let t = s.subrange(i, s.len() as int);
    assert(t.subrange(0, p.len() as int) =~= s.subrange(i, i + p.len()));
    assert(t.subrange(p.len() as int, t.len() as int) =~= s.subrange(i + p.len(), s.len() as int));
}

/// Unfolding `replace_all` at a position where the pattern does not occur.
pub proof fn lemma_replace_step_skip(s: Seq<char>, p: Seq<char>, r: Seq<char>, i: int)
    requires
        p.len() > 0,
        0 <= i < s.len(),
        i + p.len() <= s.len(),
        !occurs_at(s, p, i),
    ensures
        replace_all(s.subrange(i, s.len() as int), p, r) == seq![s[i]] + replace_all(
            s.subrange(i + 1, s.len() as int),
            p,
            r,
        ),
{
    let t = s.subrange(i, s.len() as int);
    assert(t.subrange(0, p.len() as int) =~= s.subrange(i, i + p.len()));
    assert(t.drop_first() =~= s.subrange(i + 1, s.len() as int));
}

/// A tail shorter than the pattern is left as it is.
pub proof fn lemma_replace_short(s: Seq<char>, p: Seq<char>, r: Seq<char>)
    requires
        s.len() < p.len(),
    ensures
        replace_all(s, p, r) == s,
{
}

/// Replacing a single character in a string that does not contain it changes nothing.
pub proof fn lemma_replace_absent_char(s: Seq<char>, c: char, r: Seq<char>)
    requires
        !has_char(s, c),
    ensures
        replace_all(s, seq![c], r) == s,
    decreases s.len(),
{
    if s.len() >= 1 {
        assert(s.subrange(0, 1) != seq![c]) by {
            assert(s.subrange(0, 1)[0] == s[0]);
        }
        assert(!has_char(s.drop_first(), c)) by {
            if has_char(s.drop_first(), c) {
                let k = choose|k: int| 0 <= k < s.drop_first().len() && s.drop_first()[k] == c;
                assert(s[k + 1] == c);
            }
        }
        lemma_replace_absent_char(s.drop_first(), c, r);
        assert(seq![s[0]] + s.drop_first() =~= s);
    }
}

/// `join` of one more element.
pub proof fn lemma_join_push(parts: Seq<Seq<char>>, sep: Seq<char>, x: Seq<char>)
    ensures
        join(parts.push(x), sep) == if parts.len() == 0 {
            x
        } else {
            join(parts, sep) + sep + x
        },
{
    assert(parts.push(x).drop_last() =~= parts);
}

// ---------------------------------------------------------------------------
// Executable helpers
// ---------------------------------------------------------------------------

/// Returns the characters of `s` as a vector.
pub fn chars_of(s: &str) -> (r: Vec<char>)
    ensures
        r@ == s@,
{
    let mut r: Vec<char> = Vec::new();
    for c in it: s.chars()
        invariant
            r@ == it.seq().take(it.index() as int),
            it.seq() == s@,
    {
        r.push(c);
    }
    r
}

/// Appends one character (`String::push`).
#[verifier::external_body]
pub fn push_char(s: &mut String, c: char)
    ensures
        final(s)@ == old(s)@.push(c),
{
    s.push(c);
}

/// Builds a `String` from a slice of characters.
pub fn string_of(v: &[char]) -> (r: String)
    ensures
        r@ == v@,
{
    let mut r = String::new();
    let mut i: usize = 0;
    while i < v.len()
        invariant
            i <= v@.len(),
            r@ == v@.take(i as int),
        decreases v.len() - i,
    {
        push_char(&mut r, v[i]);
        assert(v@.take(i as int).push(v@[i as int]) =~= v@.take(i + 1));
        i = i + 1;
    }
    assert(v@.take(v@.len() as int) =~= v@);
    r
}

/// Owned copy of a string slice.
pub fn own(s: &str) -> (r: String)
    ensures
        r@ == s@,
{
    String::from_str(s)
}

/// Concatenation of two string slices.
pub fn concat2(a: &str, b: &str) -> (r: String)
    ensures
        r@ == a@ + b@,
{
    let mut r = String::from_str(a);
    r.append(b);
    r
}

/// Concatenation of three string slices.
pub fn concat3(a: &str, b: &str, c: &str) -> (r: String)
    ensures
        r@ == a@ + b@ + c@,
{
    let mut r = String::from_str(a);
    r.append(b);
    r.append(c);
    r
}

/// Character-wise equality of two strings.
pub fn str_eq(a: &str, b: &str) -> (r: bool)
    ensures
        r == (a@ == b@),
{
    let x = chars_of(a);
    let y = chars_of(b);
    chars_eq(&x, &y)
}

/// Equality of two character slices.
pub fn chars_eq(x: &[char], y: &[char]) -> (r: bool)
    ensures
        r == (x@ == y@),
{
    if x.len() != y.len() {
        return false;
    }
    let mut i: usize = 0;
    while i < x.len()
        invariant
            x@.len() == y@.len(),
            i <= x@.len(),
            forall|j: int| 0 <= j < i ==> x@[j] == y@[j],
        decreases x.len() - i,
    {
        if x[i] != y[i] {
            return false;
        }
        i = i + 1;
    }
    assert(x@ =~= y@);
    true
}

/// Whether `p` occurs in `s` at position `i` (on character vectors).
pub fn occurs_at_chars(s: &[char], p: &[char], i: usize) -> (r: bool)
    ensures
        r == occurs_at(s@, p@, i as int),
{
    let n = s.len();
    if i > n || p.len() > n - i {
        return false;
    }
    let mut k: usize = 0;
    while k < p.len()
        invariant
            n == s@.len(),
            i + p@.len() <= n,
            k <= p@.len(),
            forall|j: int| 0 <= j < k ==> s@[i + j] == p@[j],
        decreases p.len() - k,
    {
        if s[i + k] != p[k] {
            assert(s@.subrange(i as int, i + p@.len())[k as int] == s@[i + k]);
            return false;
        }
        k = k + 1;
    }
    assert(s@.subrange(i as int, i + p@.len()) =~= p@);
    true
}

/// `str::starts_with`.
pub fn starts_with(s: &str, p: &str) -> (r: bool)
    ensures
        r == has_prefix(s@, p@),
{
    let x = chars_of(s);
    let y = chars_of(p);
    occurs_at_chars(&x, &y, 0)
}

/// `str::ends_with`.
pub fn ends_with(s: &str, p: &str) -> (r: bool)
    ensures
        r == has_suffix(s@, p@),
{
    let x = chars_of(s);
    let y = chars_of(p);
    if y.len() > x.len() {
        return false;
    }
    occurs_at_chars(&x, &y, x.len() - y.len())
}

/// `str::contains` with a string pattern.
pub fn contains_str(s: &str, p: &str) -> (r: bool)
    ensures
        r == contains(s@, p@),
{
    let x = chars_of(s);
    let y = chars_of(p);
    if y.len() > x.len() {
        proof {
            assert forall|i: int| !occurs_at(s@, p@, i) by {}
        }
        return false;
    }
    let last = x.len() - y.len();
    let mut i: usize = 0;
    while i < last
        invariant
            x@ == s@,
            y@ == p@,
            last == x@.len() - y@.len(),
            i <= last,
            forall|j: int| 0 <= j < i ==> !occurs_at(s@, p@, j),
        decreases last - i,
    {
        if occurs_at_chars(&x, &y, i) {
            return true;
        }
        i = i + 1;
    }
    if occurs_at_chars(&x, &y, last) {
        return true;
    }
    proof {
        assert forall|j: int| !occurs_at(s@, p@, j) by {
            if 0 <= j && j + p@.len() <= s@.len() {
                assert(j <= last as int);
            }
        }
    }
    false
}

/// `str::contains` with a single character.
pub fn has_char_exec(s: &str, c: char) -> (r: bool)
    ensures
        r == has_char(s@, c),
{
    let x = chars_of(s);
    let mut i: usize = 0;
    while i < x.len()
        invariant
            x@ == s@,
            i <= x@.len(),
            forall|j: int| 0 <= j < i ==> x@[j] != c,
        decreases x.len() - i,
    {
        if x[i] == c {
            return true;
        }
        i = i + 1;
    }
    false
}

/// `char::is_whitespace`.
pub fn is_whitespace_exec(c: char) -> (r: bool)
    ensures
        r == is_whitespace(c),
{
    ('\t' <= c && c <= '\r') || c == ' ' || c == '\u{85}' || c == '\u{a0}' || c == '\u{1680}' || (
    '\u{2000}' <= c && c <= '\u{200a}') || c == '\u{2028}' || c == '\u{2029}' || c == '\u{202f}'
        || c == '\u{205f}' || c == '\u{3000}'
}

/// `char::is_ascii_alphanumeric`.
pub fn is_ascii_alnum_exec(c: char) -> (r: bool)
    ensures
        r == is_ascii_alnum(c),
{
    ('a' <= c && c <= 'z') || ('A' <= c && c <= 'Z') || ('0' <= c && c <= '9')
}

/// ASCII lower-casing of one character.
pub fn lower_char_exec(c: char) -> (r: char)
    ensures
        r == lower_char(c),
{
    if 'A' <= c && c <= 'Z' {
        let v: u32 = c as u32;
        assert(65 <= v <= 90);
        let w: u32 = v + 32;
        proof {
            assert(0x61 <= w <= 0x7a);
        }
        char_from_ascii(w)
    } else {
        c
    }
}

/// The character with ASCII code `v`.
fn char_from_ascii(v: u32) -> (r: char)
    requires
        v < 128,
    ensures
        r == v as char,
        r as u32 == v,
{
    let b: u8 = v as u8;
    b as char
}

/// ASCII lower-casing of a whole string (`str::to_ascii_lowercase`).
pub fn lower_exec(s: &str) -> (r: String)
    ensures
        r@ == lower(s@),
{
    let x = chars_of(s);
    let mut out: Vec<char> = Vec::new();
    let mut i: usize = 0;
    while i < x.len()
        invariant
            x@ == s@,
            i <= x@.len(),
            out@ == lower(s@).take(i as int),
        decreases x.len() - i,
    {
        let c = lower_char_exec(x[i]);
        out.push(c);
        assert(lower(s@).take(i + 1) =~= lower(s@).take(i as int).push(c));
        i = i + 1;
    }
    assert(lower(s@).take(x@.len() as int) =~= lower(s@));
    string_of(&out)
}

/// ASCII case-insensitive equality (`str::eq_ignore_ascii_case`).
pub fn eq_ignore_ascii_case(a: &str, b: &str) -> (r: bool)
    ensures
        r == (lower(a@) == lower(b@)),
{
    let x = lower_exec(a);
    let y = lower_exec(b);
    str_eq(x.as_str(), y.as_str())
}

/// Index of the first non-whitespace character of `v`, or `v.len()`.
fn first_non_ws(v: &[char]) -> (r: usize)
    ensures
        r <= v@.len(),
        trim_start(v@) == v@.subrange(r as int, v@.len() as int),
        r < v@.len() ==> !is_whitespace(v@[r as int]),
        forall|j: int| 0 <= j < r ==> is_whitespace(v@[j]),
{
    let mut i: usize = 0;
    assert(v@.subrange(0, v@.len() as int) =~= v@);
    while i < v.len() && is_whitespace_exec(v[i])
        invariant
            i <= v@.len(),
            trim_start(v@) == trim_start(v@.subrange(i as int, v@.len() as int)),
            forall|j: int| 0 <= j < i ==> is_whitespace(v@[j]),
        decreases v.len() - i,
    {
        let ghost t = v@.subrange(i as int, v@.len() as int);
        assert(t.drop_first() =~= v@.subrange(i + 1, v@.len() as int));
        i = i + 1;
    }
    i
}

/// Index one past the last non-whitespace character of `v`, or 0.
fn last_non_ws(v: &[char]) -> (r: usize)
    ensures
        r <= v@.len(),
        trim_end(v@) == v@.subrange(0, r as int),
        forall|j: int| r <= j < v@.len() ==> is_whitespace(v@[j]),
{
    let mut i: usize = v.len();
    assert(v@.subrange(0, v@.len() as int) =~= v@);
    while i > 0 && is_whitespace_exec(v[i - 1])
        invariant
            i <= v@.len(),
            trim_end(v@) == trim_end(v@.subrange(0, i as int)),
            forall|j: int| i <= j < v@.len() ==> is_whitespace(v@[j]),
        decreases i,
    {
        let ghost t = v@.subrange(0, i as int);
        assert(t.drop_last() =~= v@.subrange(0, i - 1));
        i = i - 1;
    }
    i
}

/// Trimming the end of a string that has a non-whitespace first character.
proof fn lemma_trim_end_subrange(v: Seq<char>, a: int, b: int)
    requires
        0 <= a <= b <= v.len(),
        trim_end(v.subrange(0, b)) == v.subrange(0, b),
        forall|j: int| b <= j < v.len() ==> is_whitespace(v[j]),
        a < b ==> !is_whitespace(v[b - 1]),
        a == b ==> forall|j: int| a <= j < v.len() ==> is_whitespace(v[j]),
    ensures
        trim_end(v.subrange(a, v.len() as int)) == v.subrange(a, b),
    decreases v.len() - b,
{
    let t = v.subrange(a, v.len() as int);
    if b < v.len() {
        assert(t.last() == v[v.len() - 1]);
        assert(t.drop_last() =~= v.drop_last().subrange(a, v.len() - 1));
        assert(v.drop_last().subrange(0, b) =~= v.subrange(0, b));
        lemma_trim_end_subrange(v.drop_last(), a, b);
        assert(v.drop_last().subrange(a, b) =~= v.subrange(a, b));
    } else {
        if a < b {
            assert(t.last() == v[b - 1]);
        }
        assert(t =~= v.subrange(a, b));
    }
}

/// `str::trim`.
pub fn trim_exec(s: &str) -> (r: String)
    ensures
        r@ == trim(s@),
{
    let v = chars_of(s);
    let a = first_non_ws(&v);
    let b = last_non_ws(&v);
    if a >= b {
        proof {
            assert forall|j: int| a <= j < v@.len() implies is_whitespace(v@[j]) by {
                assert(b <= j);
            }
            lemma_trim_end_all_ws(v@.subrange(a as int, v@.len() as int));
        }
        return String::new();
    }
    proof {
        assert(b >= 1 && !is_whitespace(v@[b - 1])) by {
            if is_whitespace(v@[b - 1]) {
                // b - 1 >= a, and a is not whitespace unless a == len
                lemma_trim_end_last_non_ws(v@, b as int);
            }
        }
        lemma_trim_end_subrange(v@, a as int, b as int);
    }
    let mut out: Vec<char> = Vec::new();
    let mut i: usize = a;
    while i < b
        invariant
            a <= i <= b <= v@.len(),
            out@ == v@.subrange(a as int, i as int),
        decreases b - i,
    {
        out.push(v[i]);
        assert(v@.subrange(a as int, i + 1) =~= v@.subrange(a as int, i as int).push(v@[i as int]));
        i = i + 1;
    }
    string_of(&out)
}

/// Trimming the end of an all-whitespace string gives the empty string.
proof fn lemma_trim_end_all_ws(t: Seq<char>)
    requires
        forall|j: int| 0 <= j < t.len() ==> is_whitespace(t[j]),
    ensures
        trim_end(t) == Seq::<char>::empty(),
    decreases t.len(),
{
    if t.len() > 0 {
        lemma_trim_end_all_ws(t.drop_last());
    } else {
        assert(t =~= Seq::<char>::empty());
    }
}

/// When `trim_end(v) == v.take(b)` with `b > 0`, position `b - 1` is not whitespace.
proof fn lemma_trim_end_last_non_ws(v: Seq<char>, b: int)
    requires
        0 < b <= v.len(),
        trim_end(v) == v.subrange(0, b),
    ensures
        !is_whitespace(v[b - 1]),
{
    lemma_trim_end_result(v);
    assert(trim_end(v).last() == v[b - 1]);
}

/// The result of `trim_end` is empty or ends with a non-whitespace character.
proof fn lemma_trim_end_result(v: Seq<char>)
    ensures
        trim_end(v).len() > 0 ==> !is_whitespace(trim_end(v).last()),
    decreases v.len(),
{
    if v.len() > 0 && is_whitespace(v.last()) {
        lemma_trim_end_result(v.drop_last());
    }
}

/// `str::replace` with a non-empty pattern.
pub fn replace_exec(s: &str, p: &str, r: &str) -> (out: String)
    requires
        p@.len() > 0,
    ensures
        out@ == replace_all(s@, p@, r@),
{
    let x = chars_of(s);
    let y = chars_of(p);
    let z = chars_of(r);
    let mut out: Vec<char> = Vec::new();
    let mut i: usize = 0;
    assert(x@.subrange(0, x@.len() as int) =~= x@);
    while i < x.len()
        invariant
            x@ == s@,
            y@ == p@,
            z@ == r@,
            y@.len() > 0,
            i <= x@.len(),
            replace_all(s@, p@, r@) == out@ + replace_all(
                x@.subrange(i as int, x@.len() as int),
                p@,
                r@,
            ),
        decreases x.len() - i,
    {
        if y.len() <= x.len() - i && occurs_at_chars(&x, &y, i) {
            proof {
                lemma_replace_step_match(x@, y@, z@, i as int);
            }
            let mut k: usize = 0;
            let ghost before = out@;
            while k < z.len()
                invariant
                    k <= z@.len(),
                    out@ == before + z@.take(k as int),
                decreases z.len() - k,
            {
                out.push(z[k]);
                assert(z@.take(k + 1) =~= z@.take(k as int).push(z@[k as int]));
                k = k + 1;
            }
            assert(z@.take(z@.len() as int) =~= z@);
            assert(before + (z@ + replace_all(x@.subrange(i + y@.len(), x@.len() as int), p@, r@))
                =~= out@ + replace_all(x@.subrange(i + y@.len(), x@.len() as int), p@, r@));
            i = i + y.len();
        } else if y.len() <= x.len() - i {
            proof {
                lemma_replace_step_skip(x@, y@, z@, i as int);
            }
            let ghost before = out@;
            out.push(x[i]);
            assert(before + (seq![x@[i as int]] + replace_all(x@.subrange(i + 1, x@.len() as int), p@, r@))
                =~= out@ + replace_all(x@.subrange(i + 1, x@.len() as int), p@, r@));
            i = i + 1;
        } else {
            let ghost t = x@.subrange(i as int, x@.len() as int);
            proof {
                lemma_replace_short(t, y@, z@);
            }
            let ghost before = out@;
            let mut k: usize = i;
            while k < x.len()
                invariant
                    i <= k <= x@.len(),
                    out@ == before + x@.subrange(i as int, k as int),
                decreases x.len() - k,
            {
                out.push(x[k]);
                assert(x@.subrange(i as int, k + 1) =~= x@.subrange(i as int, k as int).push(x@[k as int]));
                k = k + 1;
            }
            assert(x@.subrange(x@.len() as int, x@.len() as int) =~= Seq::<char>::empty());
            assert(out@ + replace_all(x@.subrange(x@.len() as int, x@.len() as int), p@, r@) =~= out@);
            i = x.len();
        }
    }
    string_of(&out)
}

/// `str::trim_start_matches` with a non-empty string pattern.
pub fn trim_start_matches_exec(s: &str, p: &str) -> (r: String)
    requires
        p@.len() > 0,
    ensures
        r@ == trim_start_matches(s@, p@),
{
    let x = chars_of(s);
    let y = chars_of(p);
    let mut i: usize = 0;
    assert(x@.subrange(0, x@.len() as int) =~= x@);
    while y.len() <= x.len() - i && occurs_at_chars(&x, &y, i)
        invariant
            x@ == s@,
            y@ == p@,
            y@.len() > 0,
            i <= x@.len(),
            trim_start_matches(s@, p@) == trim_start_matches(
                x@.subrange(i as int, x@.len() as int),
                p@,
            ),
        decreases x.len() - i,
    {
        let ghost t = x@.subrange(i as int, x@.len() as int);
        assert(t.subrange(0, y@.len() as int) =~= x@.subrange(i as int, i + y@.len()));
        assert(t.subrange(y@.len() as int, t.len() as int) =~= x@.subrange(i + y@.len(), x@.len() as int));
        i = i + y.len();
    }
    proof {
        let t = x@.subrange(i as int, x@.len() as int);
        if has_prefix(t, p@) {
            assert(t.subrange(0, p@.len() as int) =~= x@.subrange(i as int, i + p@.len()));
        }
    }
    let mut out: Vec<char> = Vec::new();
    let mut k: usize = i;
    while k < x.len()
        invariant
            i <= k <= x@.len(),
            out@ == x@.subrange(i as int, k as int),
        decreases x.len() - k,
    {
        out.push(x[k]);
        assert(x@.subrange(i as int, k + 1) =~= x@.subrange(i as int, k as int).push(x@[k as int]));
        k = k + 1;
    }
    string_of(&out)
}

/// Joins strings with a separator (`[String]::join`).
pub fn join_exec(parts: &Vec<String>, sep: &str) -> (r: String)
    ensures
        r@ == join(views(parts@), sep@),
{
    let mut r = String::new();
    let mut i: usize = 0;
    while i < parts.len()
        invariant
            i <= parts@.len(),
            r@ == join(views(parts@).take(i as int), sep@),
        decreases parts.len() - i,
    {
        proof {
            lemma_join_push(views(parts@).take(i as int), sep@, parts@[i as int]@);
            assert(views(parts@).take(i as int).push(parts@[i as int]@) =~= views(parts@).take(i + 1));
        }
        if i > 0 {
            r.append(sep);
        }
        r.append(parts[i].as_str());
        i = i + 1;
    }
    assert(views(parts@).take(parts@.len() as int) =~= views(parts@));
    r
}

/// Copies a slice of strings into a vector.
pub fn clone_strings(v: &[String]) -> (r: Vec<String>)
    ensures
        views(r@) == views(v@),
        r@.len() == v@.len(),
{
    let mut r: Vec<String> = Vec::new();
    let mut i: usize = 0;
    while i < v.len()
        invariant
            i <= v@.len(),
            views(r@) == views(v@).take(i as int),
            r@.len() == i,
        decreases v.len() - i,
    {
        r.push(v[i].clone());
        assert(views(r@) =~= views(v@).take(i + 1));
        i = i + 1;
    }
    assert(views(v@).take(v@.len() as int) =~= views(v@));
    r
}

/// Every item of `items` with `prefix` in front.
pub open spec fn prefixed(prefix: Seq<char>, items: Seq<Seq<char>>) -> Seq<Seq<char>> {
    items.map_values(|s: Seq<char>| prefix + s)
}

/// Prepends `prefix` to each string.
pub fn prefix_each(prefix: &str, items: &[String]) -> (r: Vec<String>)
    ensures
        views(r@) == prefixed(prefix@, views(items@)),
{
    let mut r: Vec<String> = Vec::new();
    let mut i: usize = 0;
    while i < items.len()
        invariant
            i <= items@.len(),
            views(r@) == prefixed(prefix@, views(items@)).take(i as int),
        decreases items.len() - i,
    {
        let ghost before = r@;
        let x = concat2(prefix, items[i].as_str());
        r.push(x);
        assert(views(r@) =~= views(before).push(x@));
        assert(prefixed(prefix@, views(items@)).take(i + 1) =~= prefixed(prefix@, views(items@)).take(
            i as int,
        ).push(prefix@ + items@[i as int]@));
        i = i + 1;
    }
    assert(prefixed(prefix@, views(items@)).take(items@.len() as int) =~= prefixed(prefix@, views(items@)));
    r
}

/// Appends copies of `items` to `v`.
pub fn extend_strings(v: &mut Vec<String>, items: &[String])
    ensures
        views(final(v)@) == views(old(v)@) + views(items@),
{
    let mut i: usize = 0;
    let ghost start = views(v@);
    while i < items.len()
        invariant
            i <= items@.len(),
            views(v@) == start + views(items@).take(i as int),
        decreases items.len() - i,
    {
        let ghost before = v@;
        let x = items[i].clone();
        v.push(x);
        assert(views(v@) =~= views(before).push(x@));
        assert(views(items@).take(i + 1) =~= views(items@).take(i as int).push(items@[i as int]@));
        i = i + 1;
    }
    assert(views(items@).take(items@.len() as int) =~= views(items@));
}

/// Appends an owned copy of `s` to `v`.
pub fn push_str_item(v: &mut Vec<String>, s: &str)
    ensures
        views(final(v)@) == views(old(v)@).push(s@),
{
    v.push(own(s));
    assert(views(v@) =~= views(old(v)@).push(s@));
}

} // verus!
