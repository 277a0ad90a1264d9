//! Text generated for IDE integration: JSON and XML escaping, file names, and
//! the fixed VS Code and CLion files.
use vstd::prelude::*;

use crate::text::{
    chars_of, concat2, concat3, has_char, has_prefix, lower, lower_exec, own, push_char, replace_all,
    replace_exec, str_eq, string_of, trim_start_matches, trim_start_matches_exec, views,
};

verus! {

// ---------------------------------------------------------------------------
// JSON string literals
// ---------------------------------------------------------------------------

/// Lower-case hexadecimal digit of `d < 16`.
pub open spec fn hex_digit(d: int) -> char {
    if d < 10 {
        (('0' as u32) + d) as char
    } else {
        (('a' as u32) + d - 10) as char
    }
}

/// Four lower-case hexadecimal digits of `v < 0x10000` (`{:04x}`).
pub open spec fn hex4(v: int) -> Seq<char> {
    seq![hex_digit((v / 4096) % 16), hex_digit((v / 256) % 16), hex_digit((v / 16) % 16), hex_digit(v % 16)]
}

/// How one character is written inside a JSON string literal.
pub open spec fn json_escape_char(c: char) -> Seq<char> {
    if c == '\\' {
        seq!['\\', '\\']
    } else if c == '"' {
        seq!['\\', '"']
    } else if c == '\n' {
        seq!['\\', 'n']
    } else if c == '\r' {
        seq!['\\', 'r']
    } else if c == '\t' {
        seq!['\\', 't']
    } else if c == '\x08' {
        seq!['\\', 'b']
    } else if c == '\x0c' {
        seq!['\\', 'f']
    } else if crate::text::is_control(c) {
        seq!['\\', 'u'] + hex4(c as u32 as int)
    } else {
        seq![c]
    }
}

/// The escaped body of a JSON string literal.
pub open spec fn json_escape(s: Seq<char>) -> Seq<char>
    decreases s.len(),
{
    if s.len() == 0 {
        Seq::empty()
    } else {
        json_escape_char(s[0]) + json_escape(s.drop_first())
    }
}

/// A JSON string literal for `s`.
pub open spec fn json_str_spec(s: Seq<char>) -> Seq<char> {
    seq!['"'] + json_escape(s) + seq!['"']
}

/// Value of a lower-case hexadecimal digit, or -1.
pub open spec fn hex_value(c: char) -> int {
    if '0' <= c && c <= '9' {
        (c as u32) - ('0' as u32)
    } else if 'a' <= c && c <= 'f' {
        (c as u32) - ('a' as u32) + 10
    } else {
        -1
    }
}

/// Decodes the body of a JSON string literal written with the escapes above.
pub open spec fn json_unescape(t: Seq<char>) -> Seq<char>
    decreases t.len(),
{
    if t.len() == 0 {
        Seq::empty()
    } else if t[0] == '\\' && t.len() >= 2 {
        let e = t[1];
        if e == 'u' && t.len() >= 6 {
            let v = hex_value(t[2]) * 4096 + hex_value(t[3]) * 256 + hex_value(t[4]) * 16 + hex_value(t[5]);
            seq![v as char] + json_unescape(t.subrange(6, t.len() as int))
        } else {
            let c = if e == 'n' {
                '\n'
            } else if e == 'r' {
                '\r'
            } else if e == 't' {
                '\t'
            } else if e == 'b' {
                '\x08'
            } else if e == 'f' {
                '\x0c'
            } else {
                e
            };
            seq![c] + json_unescape(t.subrange(2, t.len() as int))
        }
    } else {
        seq![t[0]] + json_unescape(t.drop_first())
    }
}

/// Escaping one more character.
proof fn lemma_json_escape_push(s: Seq<char>, c: char)
    ensures
        json_escape(s.push(c)) == json_escape(s) + json_escape_char(c),
    decreases s.len(),
{
    if s.len() == 0 {
        let t = s.push(c);
        assert(t.drop_first() =~= Seq::<char>::empty());
        assert(t[0] == c);
        assert(json_escape(t.drop_first()) == Seq::<char>::empty());
        assert(json_escape(t) == json_escape_char(c) + json_escape(t.drop_first()));
        assert(json_escape(t) =~= json_escape_char(c));
        assert(json_escape(s) == Seq::<char>::empty());
        assert(json_escape(s) + json_escape_char(c) =~= json_escape_char(c));
    } else {
        assert(s.push(c).drop_first() =~= s.drop_first().push(c));
        lemma_json_escape_push(s.drop_first(), c);
        assert(json_escape(s.push(c)) =~= json_escape(s) + json_escape_char(c));
    }
}

/// Decoding one escaped character followed by more text.
proof fn lemma_json_unescape_char(c: char, rest: Seq<char>)
    ensures
        json_unescape(json_escape_char(c) + rest) == seq![c] + json_unescape(rest),
{
    let t = json_escape_char(c) + rest;
    if c == '\\' || c == '"' || c == '\n' || c == '\r' || c == '\t' || c == '\x08' || c == '\x0c' {
        assert(t.subrange(2, t.len() as int) =~= rest);
    } else if crate::text::is_control(c) {
        let v = c as u32 as int;
        assert(0 <= v < 0xa0);
        assert(t.subrange(6, t.len() as int) =~= rest);
        assert(hex_value(hex_digit((v / 4096) % 16)) == (v / 4096) % 16);
        assert(hex_value(hex_digit((v / 256) % 16)) == (v / 256) % 16);
        assert(hex_value(hex_digit((v / 16) % 16)) == (v / 16) % 16);
        assert(hex_value(hex_digit(v % 16)) == v % 16);
        assert(((v / 4096) % 16) * 4096 + ((v / 256) % 16) * 256 + ((v / 16) % 16) * 16 + v % 16 == v);
        assert((v as char) == c);
    } else {
        assert(t.drop_first() =~= rest);
    }
}

/// A JSON string literal decodes back to the string it was made from.
pub proof fn lemma_json_round_trip(s: Seq<char>)
    ensures
        json_unescape(json_escape(s)) == s,
    decreases s.len(),
{
    if s.len() > 0 {
        lemma_json_unescape_char(s[0], json_escape(s.drop_first()));
        lemma_json_round_trip(s.drop_first());
        assert(seq![s[0]] + s.drop_first() =~= s);
    }
}

fn hex_digit_exec(d: u32) -> (r: char)
    requires
        d < 16,
    ensures
        r == hex_digit(d as int),
{
    if d < 10 {
        let b: u8 = (48 + d) as u8;
        b as char
    } else {
        let b: u8 = (97 + d - 10) as u8;
        b as char
    }
}

/// Quotes `s` as a JSON string literal.
pub fn json_str(s: &str) -> (r: String)
    ensures
        r@ == json_str_spec(s@),
{
    let v = chars_of(s);
    let mut out = String::new();
    push_char(&mut out, '"');
    let mut i: usize = 0;
    while i < v.len()
        invariant
            v@ == s@,
            i <= v@.len(),
            out@ == seq!['"'] + json_escape(v@.take(i as int)),
        decreases v.len() - i,
    {
        let c = v[i];
        proof {
            lemma_json_escape_push(v@.take(i as int), c);
            assert(v@.take(i as int).push(c) =~= v@.take(i + 1));
        }
        let ghost before = out@;
        if c == '\\' {
            push_char(&mut out, '\\');
            push_char(&mut out, '\\');
        } else if c == '"' {
            push_char(&mut out, '\\');
            push_char(&mut out, '"');
        } else if c == '\n' {
            push_char(&mut out, '\\');
            push_char(&mut out, 'n');
        } else if c == '\r' {
            push_char(&mut out, '\\');
            push_char(&mut out, 'r');
        } else if c == '\t' {
            push_char(&mut out, '\\');
            push_char(&mut out, 't');
        } else if c == '\x08' {
            push_char(&mut out, '\\');
            push_char(&mut out, 'b');
        } else if c == '\x0c' {
            push_char(&mut out, '\\');
            push_char(&mut out, 'f');
        } else if (c as u32) <= 0x1f || (0x7f <= (c as u32) && (c as u32) <= 0x9f) {
            let v32: u32 = c as u32;
            push_char(&mut out, '\\');
            push_char(&mut out, 'u');
            push_char(&mut out, hex_digit_exec((v32 / 4096) % 16));
            push_char(&mut out, hex_digit_exec((v32 / 256) % 16));
            push_char(&mut out, hex_digit_exec((v32 / 16) % 16));
            push_char(&mut out, hex_digit_exec(v32 % 16));
        } else {
            push_char(&mut out, c);
        }
        assert(out@ =~= before + json_escape_char(c));
        i = i + 1;
    }
    assert(v@.take(v@.len() as int) =~= v@);
    push_char(&mut out, '"');
    out
}

/// A JSON array of strings: `[a, b, ...]` with `, ` between items.
pub open spec fn json_str_array_spec(items: Seq<Seq<char>>) -> Seq<char> {
    seq!['['] + crate::text::join(items.map_values(|s: Seq<char>| json_str_spec(s)), ", "@) + seq![']']
}

/// Writes a list of strings as a JSON array.
pub fn json_str_array(items: &[String]) -> (r: String)
    ensures
        r@ == json_str_array_spec(views(items@)),
{
    let mut inner: Vec<String> = Vec::new();
    let mut i: usize = 0;
    while i < items.len()
        invariant
            i <= items@.len(),
            views(inner@) == views(items@).take(i as int).map_values(|s: Seq<char>| json_str_spec(s)),
        decreases items.len() - i,
    {
        let ghost before = inner@;
        let q = json_str(items[i].as_str());
        inner.push(q);
        assert(views(inner@) =~= views(before).push(q@));
        assert(views(items@).take(i + 1).map_values(|s: Seq<char>| json_str_spec(s)) =~= views(items@).take(
            i as int,
        ).map_values(|s: Seq<char>| json_str_spec(s)).push(json_str_spec(items@[i as int]@)));
        i = i + 1;
    }
    assert(views(items@).take(items@.len() as int) =~= views(items@));
    let body = crate::text::join_exec(&inner, ", ");
    let mut out = String::new();
    push_char(&mut out, '[');
    out.append(body.as_str());
    push_char(&mut out, ']');
    out
}

// ---------------------------------------------------------------------------
// XML and file names
// ---------------------------------------------------------------------------

/// XML escaping: `&`, `<`, `>`, `"` and `'` become entities, `&` first.
pub open spec fn xml_escape_spec(s: Seq<char>) -> Seq<char> {
    replace_all(
        replace_all(
            replace_all(replace_all(replace_all(s, seq!['&'], "&amp;"@), seq!['<'], "&lt;"@), seq!['>'], "&gt;"@),
            seq!['"'],
            "&quot;"@,
        ),
        seq!['\''],
        "&apos;"@,
    )
}

/// A character occurs in the result of replacing `c` only if it occurs in the
/// input (and is not `c`) or in the replacement.
pub proof fn lemma_replace_char_origin(s: Seq<char>, c: char, r: Seq<char>, d: char)
    ensures
        has_char(replace_all(s, seq![c], r), d) ==> (d != c && has_char(s, d)) || has_char(r, d),
    decreases s.len(),
{
    if s.len() >= 1 {
        lemma_replace_char_origin(s.drop_first(), c, r, d);
        let out = replace_all(s, seq![c], r);
        let rest = replace_all(s.drop_first(), seq![c], r);
        assert(s.subrange(1, s.len() as int) =~= s.drop_first());
        if has_char(out, d) {
            let k = choose|k: int| 0 <= k < out.len() && out[k] == d;
            if s[0] == c {
                assert(s.subrange(0, 1) =~= seq![c]);
                assert(out == r + rest);
                if k < r.len() {
                    assert(r[k] == d);
                } else {
                    assert(rest[k - r.len()] == d);
                    assert(has_char(rest, d));
                    if !has_char(r, d) {
                        let j = choose|j: int| 0 <= j < s.drop_first().len() && s.drop_first()[j] == d;
                        assert(s[j + 1] == d);
                    }
                }
            } else {
                assert(s.subrange(0, 1) != seq![c]) by {
                    assert(s.subrange(0, 1)[0] == s[0]);
                }
                assert(out == seq![s[0]] + rest);
                if k == 0 {
                    assert(s[0] == d);
                } else {
                    assert(rest[k - 1] == d);
                    assert(has_char(rest, d));
                    if !has_char(r, d) {
                        let j = choose|j: int| 0 <= j < s.drop_first().len() && s.drop_first()[j] == d;
                        assert(s[j + 1] == d);
                    }
                }
            }
        }
    }
}

/// The escaped text holds no raw `<`, `>`, `"` or `'`.
pub proof fn lemma_xml_escape_no_markup(s: Seq<char>)
    ensures
        !has_char(xml_escape_spec(s), '<'),
        !has_char(xml_escape_spec(s), '>'),
        !has_char(xml_escape_spec(s), '"'),
        !has_char(xml_escape_spec(s), '\''),
{
    let s1 = replace_all(s, seq!['&'], "&amp;"@);
    let s2 = replace_all(s1, seq!['<'], "&lt;"@);
    let s3 = replace_all(s2, seq!['>'], "&gt;"@);
    let s4 = replace_all(s3, seq!['"'], "&quot;"@);
    let s5 = replace_all(s4, seq!['\''], "&apos;"@);
    reveal_strlit("&amp;");
    reveal_strlit("&lt;");
    reveal_strlit("&gt;");
    reveal_strlit("&quot;");
    reveal_strlit("&apos;");
    lemma_replace_char_origin(s1, '<', "&lt;"@, '<');
    lemma_replace_char_origin(s2, '>', "&gt;"@, '<');
    lemma_replace_char_origin(s3, '"', "&quot;"@, '<');
    lemma_replace_char_origin(s4, '\'', "&apos;"@, '<');
    lemma_replace_char_origin(s2, '>', "&gt;"@, '>');
    lemma_replace_char_origin(s3, '"', "&quot;"@, '>');
    lemma_replace_char_origin(s4, '\'', "&apos;"@, '>');
    lemma_replace_char_origin(s3, '"', "&quot;"@, '"');
    lemma_replace_char_origin(s4, '\'', "&apos;"@, '"');
    lemma_replace_char_origin(s4, '\'', "&apos;"@, '\'');
}

/// Escapes the XML special characters of `s`.
pub fn xml_escape(s: &str) -> (r: String)
    ensures
        r@ == xml_escape_spec(s@),
{
    proof {
        reveal_strlit("&");
        reveal_strlit("<");
        reveal_strlit(">");
        reveal_strlit("\"");
        reveal_strlit("'");
        assert("&"@ =~= seq!['&']);
        assert("<"@ =~= seq!['<']);
        assert(">"@ =~= seq!['>']);
        assert("\""@ =~= seq!['"']);
        assert("'"@ =~= seq!['\'']);
    }
    let a = replace_exec(s, "&", "&amp;");
    let b = replace_exec(a.as_str(), "<", "&lt;");
    let c = replace_exec(b.as_str(), ">", "&gt;");
    let d = replace_exec(c.as_str(), "\"", "&quot;");
    replace_exec(d.as_str(), "'", "&apos;")
}

/// `char::is_alphanumeric`: the character has the Unicode `Alphabetic` or
/// `Numeric` property.
pub uninterp spec fn char_is_alphanumeric(c: char) -> bool;

/// Calls `char::is_alphanumeric`; the result is the named property, which std
/// documents to hold of ASCII letters and digits.
#[verifier::external_body]
fn is_alphanumeric(c: char) -> (r: bool)
    ensures
        r == char_is_alphanumeric(c),
        crate::text::is_ascii_alnum(c) ==> r,
{
    c.is_alphanumeric()
}

/// Characters kept in generated file names.
pub open spec fn keeps_in_filename(c: char) -> bool {
    char_is_alphanumeric(c) || c == '-' || c == '_'
}

/// Every character that is not alphanumeric, `-` or `_` becomes `_`.
pub open spec fn sanitize_filename_spec(s: Seq<char>) -> Seq<char> {
    s.map_values(|c: char| if keeps_in_filename(c) { c } else { '_' })
}

/// Makes `s` safe as a file name.
pub fn sanitize_filename(s: &str) -> (r: String)
    ensures
        r@ == sanitize_filename_spec(s@),
        r@.len() == s@.len(),
        forall|i: int| 0 <= i < s@.len() && crate::text::is_ascii_alnum(#[trigger] s@[i]) ==> r@[i] == s@[i],
{
    let v = chars_of(s);
    let mut out: Vec<char> = Vec::new();
    let mut i: usize = 0;
    while i < v.len()
        invariant
            v@ == s@,
            i <= v@.len(),
            out@ == sanitize_filename_spec(s@).take(i as int),
            forall|j: int| 0 <= j < i && crate::text::is_ascii_alnum(#[trigger] s@[j]) ==> char_is_alphanumeric(s@[j]),
        decreases v.len() - i,
    {
        let c = v[i];
        let k = if is_alphanumeric(c) || c == '-' || c == '_' {
            c
        } else {
            '_'
        };
        out.push(k);
        assert(out@ =~= sanitize_filename_spec(s@).take(i + 1));
        i = i + 1;
    }
    assert(sanitize_filename_spec(s@).take(v@.len() as int) =~= sanitize_filename_spec(s@));
    string_of(&out)
}

// ---------------------------------------------------------------------------
// Paths and debugger choice
// ---------------------------------------------------------------------------

/// Strips a leading `./` (repeatedly) and then `src/`. A `src\` prefix is
/// stripped only from text that does not start with `src/`; when `src/` was
/// stripped and the rest does not start with `src\`, the text after `./` is
/// kept whole.
pub open spec fn strip_src_prefix_spec(p: Seq<char>) -> Seq<char> {
    let trimmed = trim_start_matches(p, "./"@);
    let without_fwd = if has_prefix(trimmed, "src/"@) {
        trimmed.subrange(4, trimmed.len() as int)
    } else {
        trimmed
    };
    if has_prefix(without_fwd, "src\\"@) {
        without_fwd.subrange(4, without_fwd.len() as int)
    } else {
        trimmed
    }
}

/// Strips the source-directory prefix of a source path.
pub fn strip_src_prefix(p: &str) -> (r: String)
    ensures
        r@ == strip_src_prefix_spec(p@),
{
    proof {
        reveal_strlit("./");
        reveal_strlit("src/");
        reveal_strlit("src\\");
    }
    let trimmed = trim_start_matches_exec(p, "./");
    let tv = chars_of(trimmed.as_str());
    let without_fwd = if crate::text::starts_with(trimmed.as_str(), "src/") {
        let w = crate::paths::sub_chars(&tv, 4, tv.len());
        string_of(&w)
    } else {
        own(trimmed.as_str())
    };
    if crate::text::starts_with(without_fwd.as_str(), "src\\") {
        let wv = chars_of(without_fwd.as_str());
        let w = crate::paths::sub_chars(&wv, 4, wv.len());
        string_of(&w)
    } else {
        trimmed
    }
}

/// The VS Code debug adapter type for a debugger name.
pub open spec fn debug_type_spec(windows: bool, debugger: Seq<char>) -> Seq<char> {
    let d = lower(debugger);
    if crate::text::contains(d, "gdb"@) || d == "cppdbg"@ {
        "cppdbg"@
    } else if windows && (crate::text::contains(d, "vs"@) || d == "cppvsdbg"@) {
        "cppvsdbg"@
    } else {
        "lldb"@
    }
}

/// The VS Code debug adapter type for a configured debugger.
pub fn debug_type_for(windows: bool, debugger: &str) -> (r: &'static str)
    ensures
        r@ == debug_type_spec(windows, debugger@),
{
    let ld = lower_exec(debugger);
    let d = ld.as_str();
    if crate::text::contains_str(d, "gdb") || str_eq(d, "cppdbg") {
        "cppdbg"
    } else if windows && (crate::text::contains_str(d, "vs") || str_eq(d, "cppvsdbg")) {
        "cppvsdbg"
    } else {
        "lldb"
    }
}

} // verus!
