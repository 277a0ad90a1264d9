//! The minimal manifest that `dcr new` and `dcr init` write: its default
//! content, the fields it must have, and its text.
use vstd::prelude::*;

use crate::build_config::ConfigError;
use crate::text::{concat2, concat3, join, join_exec, own, push_str_item, trim, trim_exec, views};
use crate::value::{model_arr, model_tab, tab_get, table_get, table_insert, toml_str, Toml, TomlValue};

verus! {

/// The version of a new project.
pub const DEFAULT_VERSION: &'static str = "0.1.0";

/// The language of a new project.
pub const DEFAULT_LANGUAGE: &'static str = "c";

/// The language standard of a new project.
pub const DEFAULT_STANDARD: &'static str = "c11";

/// The compiler of a new project.
pub const DEFAULT_COMPILER: &'static str = "clang";

// ---------------------------------------------------------------------------
// Default content
// ---------------------------------------------------------------------------

/// The manifest of a new project named `name`: `[package]` with the name and
/// version, `[build]` with language, standard and compiler, and an empty
/// `[dependencies]`; keys in ascending order.
pub open spec fn default_manifest_spec(name: Seq<char>) -> Toml {
    Toml::Tab(
        seq![
            ("build"@, Toml::Tab(seq![("compiler"@, Toml::Str("clang"@)), ("language"@, Toml::Str("c"@)), ("standard"@, Toml::Str("c11"@))])),
            ("dependencies"@, Toml::Tab(Seq::empty())),
            ("package"@, Toml::Tab(seq![("name"@, Toml::Str(name)), ("version"@, Toml::Str("0.1.0"@))])),
        ],
    )
}

/// The manifest of a new project.
pub fn default_manifest(name: &str) -> (r: TomlValue)
    ensures
        r.model() == default_manifest_spec(name@),
{
    let build: Vec<(String, TomlValue)> = vec![
        (own("compiler"), TomlValue::String(own(DEFAULT_COMPILER))),
        (own("language"), TomlValue::String(own(DEFAULT_LANGUAGE))),
        (own("standard"), TomlValue::String(own(DEFAULT_STANDARD))),
    ];
    let package: Vec<(String, TomlValue)> = vec![
        (own("name"), TomlValue::String(own(name))),
        (own("version"), TomlValue::String(own(DEFAULT_VERSION))),
    ];
    let deps: Vec<(String, TomlValue)> = Vec::new();
    let b = TomlValue::Table(build);
    let d = TomlValue::Table(deps);
    let p = TomlValue::Table(package);
    proof {
        crate::value::lemma_table_model(build);
        crate::value::lemma_table_model(deps);
        crate::value::lemma_table_model(package);
        assert(model_tab(build@) =~= seq![("compiler"@, Toml::Str("clang"@)), ("language"@, Toml::Str("c"@)), ("standard"@, Toml::Str("c11"@))]);
        assert(model_tab(deps@) =~= Seq::<(Seq<char>, Toml)>::empty());
        assert(model_tab(package@) =~= seq![("name"@, Toml::Str(name@)), ("version"@, Toml::Str("0.1.0"@))]);
    }
    let root: Vec<(String, TomlValue)> = vec![(own("build"), b), (own("dependencies"), d), (own("package"), p)];
    proof {
        crate::value::lemma_table_model(root);
        assert(model_tab(root@) =~= seq![("build"@, b.model()), ("dependencies"@, d.model()), ("package"@, p.model())]);
    }
    TomlValue::Table(root)
}

// ---------------------------------------------------------------------------
// Required fields
// ---------------------------------------------------------------------------

/// The table at key `k` of a table value.
pub open spec fn sub_table(v: Toml, k: Seq<char>) -> Option<Seq<(Seq<char>, Toml)>> {
    match v {
        Toml::Tab(t) => match tab_get(t, k) {
            Some(Toml::Tab(s)) => Some(s),
            _ => None,
        },
        _ => None,
    }
}

/// The text of entry `k`, or empty text when it is missing or not a string.
pub open spec fn text_at(t: Seq<(Seq<char>, Toml)>, k: Seq<char>) -> Seq<char> {
    match tab_get(t, k) {
        Some(Toml::Str(s)) => s,
        _ => Seq::empty(),
    }
}

/// The first blank one of `keys` (missing, not a string, or only whitespace).
pub open spec fn first_blank(t: Seq<(Seq<char>, Toml)>, keys: Seq<Seq<char>>) -> Option<Seq<char>>
    decreases keys.len(),
{
    if keys.len() == 0 {
        None
    } else if trim(text_at(t, keys[0])).len() == 0 {
        Some(keys[0])
    } else {
        first_blank(t, keys.drop_first())
    }
}

/// A new-project manifest needs a `[package]` with a name and a version and a
/// `[build]` with a language, a standard and a compiler, none of them blank.
pub open spec fn check_manifest_spec(v: Toml) -> Result<(), Seq<char>> {
    match sub_table(v, "package"@) {
        None => Err("missing [package]"@),
        Some(p) => match first_blank(p, seq!["name"@, "version"@]) {
            Some(k) => Err("package."@ + k + " is empty"@),
            None => match sub_table(v, "build"@) {
                None => Err("missing [build]"@),
                Some(b) => match first_blank(b, seq!["language"@, "standard"@, "compiler"@]) {
                    Some(k) => Err("build."@ + k + " is empty"@),
                    None => Ok(()),
                },
            },
        },
    }
}

fn sub_table_exec<'a>(v: &'a TomlValue, k: &str) -> (r: Option<&'a Vec<(String, TomlValue)>>)
    ensures
        match r {
            Some(t) => sub_table(v.model(), k@) == Some(model_tab(t@)),
            None => sub_table(v.model(), k@) is None,
        },
{
    match v.as_table() {
        Some(t) => match table_get(t, k) {
            Some(x) => x.as_table(),
            None => None,
        },
        None => None,
    }
}

fn text_at_exec<'a>(t: &'a Vec<(String, TomlValue)>, k: &str) -> (r: &'a str)
    ensures
        r@ == text_at(model_tab(t@), k@),
{
    proof {
        reveal_strlit("");
    }
    match table_get(t, k) {
        Some(x) => match x.as_str() {
            Some(s) => s,
            None => "",
        },
        None => "",
    }
}

fn is_blank(s: &str) -> (r: bool)
    ensures
        r == (trim(s@).len() == 0),
{
    let t = trim_exec(s);
    t.as_str().is_empty()
}

/// Checks the fields a new-project manifest must have.
pub fn check_manifest(v: &TomlValue) -> (r: Result<(), ConfigError>)
    ensures
        match check_manifest_spec(v.model()) {
            Ok(_) => r is Ok,
            Err(m) => r is Err && crate::build_config::is_invalid(r->Err_0, m),
        },
{
    let p = match sub_table_exec(v, "package") {
        Some(p) => p,
        None => return Err(ConfigError::Invalid(own("missing [package]"))),
    };
    let ghost pm = model_tab(p@);
    proof {
        reveal_with_fuel(first_blank, 4);
    }
    assert(seq!["name"@, "version"@].drop_first() =~= seq!["version"@]);
    assert(seq!["version"@].drop_first() =~= Seq::<Seq<char>>::empty());
    if is_blank(text_at_exec(p, "name")) {
        return Err(ConfigError::Invalid(concat3("package.", "name", " is empty")));
    }
    if is_blank(text_at_exec(p, "version")) {
        return Err(ConfigError::Invalid(concat3("package.", "version", " is empty")));
    }
    assert(first_blank(pm, seq!["name"@, "version"@]) is None);
    let b = match sub_table_exec(v, "build") {
        Some(b) => b,
        None => return Err(ConfigError::Invalid(own("missing [build]"))),
    };
    let ghost bm = model_tab(b@);
    let ghost ks = seq!["language"@, "standard"@, "compiler"@];
    assert(ks.drop_first() =~= seq!["standard"@, "compiler"@]);
    assert(ks.drop_first().drop_first() =~= seq!["compiler"@]);
    assert(ks.drop_first().drop_first().drop_first() =~= Seq::<Seq<char>>::empty());
    if is_blank(text_at_exec(b, "language")) {
        return Err(ConfigError::Invalid(concat3("build.", "language", " is empty")));
    }
    if is_blank(text_at_exec(b, "standard")) {
        return Err(ConfigError::Invalid(concat3("build.", "standard", " is empty")));
    }
    if is_blank(text_at_exec(b, "compiler")) {
        return Err(ConfigError::Invalid(concat3("build.", "compiler", " is empty")));
    }
    Ok(())
}

// ---------------------------------------------------------------------------
// Text
// ---------------------------------------------------------------------------

/// `"s"`, written as it is.
pub open spec fn quoted(s: Seq<char>) -> Seq<char> {
    "\""@ + s + "\""@
}

/// The string items of an array, in order.
pub open spec fn array_strings(a: Seq<Toml>) -> Seq<Seq<char>>
    decreases a.len(),
{
    if a.len() == 0 {
        Seq::empty()
    } else {
        let rest = array_strings(a.drop_last());
        match a.last() {
            Toml::Str(s) => rest.push(s),
            _ => rest,
        }
    }
}

/// An array of strings as `["a", "b"]`: the items that are strings, quoted;
/// anything but an array as `[]`.
pub open spec fn string_array_text(v: Toml) -> Seq<char> {
    match v {
        Toml::Arr(a) => "["@ + join(array_strings(a).map_values(|s: Seq<char>| quoted(s)), ", "@) + "]"@,
        _ => "[]"@,
    }
}

/// The settings of a dependency table that are written: `path` (a string),
/// `system` (a boolean), and the `include`, `lib` and `libs` arrays.
pub open spec fn dep_parts(t: Seq<(Seq<char>, Toml)>) -> Seq<Seq<char>> {
    let p = match tab_get(t, "path"@) {
        Some(Toml::Str(v)) => seq!["path = "@ + quoted(v)],
        _ => Seq::empty(),
    };
    let s = match tab_get(t, "system"@) {
        Some(Toml::Bool(b)) => seq!["system = "@ + if b {
            "true"@
        } else {
            "false"@
        }],
        _ => Seq::empty(),
    };
    let i = match tab_get(t, "include"@) {
        Some(v) => seq!["include = "@ + string_array_text(v)],
        None => Seq::empty(),
    };
    let l = match tab_get(t, "lib"@) {
        Some(v) => seq!["lib = "@ + string_array_text(v)],
        None => Seq::empty(),
    };
    let ls = match tab_get(t, "libs"@) {
        Some(v) => seq!["libs = "@ + string_array_text(v)],
        None => Seq::empty(),
    };
    p + s + i + l + ls
}

/// A dependency as written: a version string quoted, a table inline, anything
/// else as `""`.
pub open spec fn dep_value_text(v: Toml) -> Seq<char> {
    match v {
        Toml::Str(s) => quoted(s),
        Toml::Tab(t) => "{ "@ + join(dep_parts(t), ", "@) + " }"@,
        _ => "\"\""@,
    }
}

/// One `name = value` line per dependency, in table order.
pub open spec fn dep_lines(t: Seq<(Seq<char>, Toml)>) -> Seq<char>
    decreases t.len(),
{
    if t.len() == 0 {
        Seq::empty()
    } else {
        dep_lines(t.drop_last()) + t.last().0 + " = "@ + dep_value_text(t.last().1) + "\n"@
    }
}

/// An optional `key = value` line.
pub open spec fn opt_line(present: bool, line: Seq<char>) -> Seq<char> {
    if present {
        line
    } else {
        Seq::empty()
    }
}

/// The manifest text of a new project: `[package]` with name and version,
/// `[build]` with language, standard, compiler, then `target` when it is a
/// non-blank string and `cflags`/`ldflags` when present, then `[dependencies]`.
/// Values are written without escaping.
pub open spec fn manifest_text_spec(v: Toml) -> Result<Seq<char>, Seq<char>> {
    match v {
        Toml::Tab(_) => match sub_table(v, "package"@) {
            None => Err("missing [package]"@),
            Some(p) => match sub_table(v, "build"@) {
                None => Err("missing [build]"@),
                Some(b) => match sub_table(v, "dependencies"@) {
                    None => Err("missing [dependencies]"@),
                    Some(d) => {
                        let target = match tab_get(b, "target"@) {
                            Some(Toml::Str(t)) => opt_line(trim(t).len() > 0, "target = "@ + quoted(t) + "\n"@),
                            _ => Seq::empty(),
                        };
                        let cflags = match tab_get(b, "cflags"@) {
                            Some(c) => "cflags = "@ + string_array_text(c) + "\n"@,
                            None => Seq::empty(),
                        };
                        let ldflags = match tab_get(b, "ldflags"@) {
                            Some(c) => "ldflags = "@ + string_array_text(c) + "\n"@,
                            None => Seq::empty(),
                        };
                        Ok(
                            "[package]\n"@ + "name = "@ + quoted(text_at(p, "name"@)) + "\n"@ + "version = "@ + quoted(
                                text_at(p, "version"@),
                            ) + "\n\n"@ + "[build]\n"@ + "language = "@ + quoted(text_at(b, "language"@)) + "\n"@
                                + "standard = "@ + quoted(text_at(b, "standard"@)) + "\n"@ + "compiler = "@ + quoted(
                                text_at(b, "compiler"@),
                            ) + "\n"@ + target + cflags + ldflags + "\n"@ + "[dependencies]\n"@ + dep_lines(d),
                        )
                    },
                },
            },
        },
        _ => Err("root is not a table"@),
    }
}

fn quoted_exec(s: &str) -> (r: String)
    ensures
        r@ == quoted(s@),
{
    concat3("\"", s, "\"")
}

/// Writes an array of strings (see `string_array_text`).
pub fn string_array_text_exec(v: &TomlValue) -> (r: String)
    ensures
        r@ == string_array_text(v.model()),
{
    match v.as_array() {
        Some(a) => {
            let ghost m = model_arr(a@);
            let mut items: Vec<String> = Vec::new();
            let mut i: usize = 0;
            assert(views(items@) =~= array_strings(m.take(0)).map_values(|s: Seq<char>| quoted(s)));
            while i < a.len()
                invariant
                    m == model_arr(a@),
                    i <= a@.len(),
                    views(items@) == array_strings(m.take(i as int)).map_values(|s: Seq<char>| quoted(s)),
                decreases a.len() - i,
            {
                assert(m.take(i + 1).drop_last() =~= m.take(i as int));
                assert(m.take(i + 1).last() == a@[i as int].model());
                match a[i].as_str() {
                    Some(s) => {
                        let q = quoted_exec(s);
                        let ghost before = views(items@);
                        items.push(q);
                        assert(views(items@) =~= before.push(q@));
                        assert(array_strings(m.take(i + 1)) == array_strings(m.take(i as int)).push(s@));
                        assert(array_strings(m.take(i + 1)).map_values(|s: Seq<char>| quoted(s)) =~= array_strings(
                            m.take(i as int),
                        ).map_values(|s: Seq<char>| quoted(s)).push(quoted(s@)));
                    },
                    None => {
                        assert(array_strings(m.take(i + 1)) == array_strings(m.take(i as int)));
                    },
                }
                i = i + 1;
            }
            assert(m.take(a@.len() as int) =~= m);
            let body = join_exec(&items, ", ");
            concat3("[", body.as_str(), "]")
        },
        None => own("[]"),
    }
}

fn push_setting(parts: &mut Vec<String>, t: &Vec<(String, TomlValue)>, key: &str, label: &str)
    ensures
        views(final(parts)@) == views(old(parts)@) + match tab_get(model_tab(t@), key@) {
            Some(v) => seq![label@ + string_array_text(v)],
            None => Seq::<Seq<char>>::empty(),
        },
{
    match table_get(t, key) {
        Some(v) => {
            let x = string_array_text_exec(v);
            let line = concat2(label, x.as_str());
            let ghost before = views(parts@);
            parts.push(line);
            assert(views(parts@) =~= before.push(line@));
        },
        None => {
            assert(views(parts@) =~= views(parts@) + Seq::<Seq<char>>::empty());
        },
    }
}

/// Writes a dependency value (see `dep_value_text`).
pub fn dep_value_text_exec(v: &TomlValue) -> (r: String)
    ensures
        r@ == dep_value_text(v.model()),
{
    match v {
        TomlValue::String(s) => quoted_exec(s.as_str()),
        TomlValue::Table(t) => {
            proof {
                crate::value::lemma_table_model(*t);
            }
            let ghost m = model_tab(t@);
            let mut parts: Vec<String> = Vec::new();
            match table_get(t, "path") {
                Some(x) => match x.as_str() {
                    Some(p) => {
                        let q = quoted_exec(p);
                        let line = concat2("path = ", q.as_str());
                        parts.push(line);
                    },
                    None => {},
                },
                None => {},
            }
            let ghost a = views(parts@);
            match table_get(t, "system") {
                Some(TomlValue::Boolean(b)) => {
                    let line = if *b {
                        concat2("system = ", "true")
                    } else {
                        concat2("system = ", "false")
                    };
                    parts.push(line);
                },
                _ => {},
            }
            let ghost b2 = views(parts@);
            push_setting(&mut parts, t, "include", "include = ");
            push_setting(&mut parts, t, "lib", "lib = ");
            push_setting(&mut parts, t, "libs", "libs = ");
            proof {
                let pp = match tab_get(m, "path"@) {
                    Some(Toml::Str(v)) => seq!["path = "@ + quoted(v)],
                    _ => Seq::<Seq<char>>::empty(),
                };
                let ss = match tab_get(m, "system"@) {
                    Some(Toml::Bool(b)) => seq!["system = "@ + if b {
                        "true"@
                    } else {
                        "false"@
                    }],
                    _ => Seq::<Seq<char>>::empty(),
                };
                assert(a =~= pp);
                assert(b2 =~= pp + ss);
                assert(views(parts@) =~= dep_parts(m));
            }
            let body = join_exec(&parts, ", ");
            concat3("{ ", body.as_str(), " }")
        },
        _ => own("\"\""),
    }
}

/// Writes the dependency lines (see `dep_lines`).
fn dep_lines_exec(t: &Vec<(String, TomlValue)>) -> (r: String)
    ensures
        r@ == dep_lines(model_tab(t@)),
{
    let ghost m = model_tab(t@);
    let mut out = String::new();
    let mut i: usize = 0;
    assert(out@ =~= dep_lines(m.take(0)));
    while i < t.len()
        invariant
            m == model_tab(t@),
            i <= t@.len(),
            out@ == dep_lines(m.take(i as int)),
        decreases t.len() - i,
    {
        assert(m.take(i + 1).drop_last() =~= m.take(i as int));
        assert(m.take(i + 1).last() == (t@[i as int].0@, t@[i as int].1.model()));
        let v = dep_value_text_exec(&t[i].1);
        let a = concat3(t[i].0.as_str(), " = ", v.as_str());
        let line = concat2(a.as_str(), "\n");
        out.append(line.as_str());
        i = i + 1;
    }
    assert(m.take(t@.len() as int) =~= m);
    out
}

/// The manifest text of a new project (see `manifest_text_spec`).
pub fn manifest_text(v: &TomlValue) -> (r: Result<String, ConfigError>)
    ensures
        match manifest_text_spec(v.model()) {
            Ok(s) => r is Ok && r->Ok_0@ == s,
            Err(m) => r is Err && crate::build_config::is_invalid(r->Err_0, m),
        },
{
    if v.as_table().is_none() {
        return Err(ConfigError::Invalid(own("root is not a table")));
    }
    let p = match sub_table_exec(v, "package") {
        Some(p) => p,
        None => return Err(ConfigError::Invalid(own("missing [package]"))),
    };
    let b = match sub_table_exec(v, "build") {
        Some(b) => b,
        None => return Err(ConfigError::Invalid(own("missing [build]"))),
    };
    let d = match sub_table_exec(v, "dependencies") {
        Some(d) => d,
        None => return Err(ConfigError::Invalid(own("missing [dependencies]"))),
    };
    let mut out = String::new();
    out.append("[package]\n");
    out.append("name = ");
    out.append(quoted_exec(text_at_exec(p, "name")).as_str());
    out.append("\n");
    out.append("version = ");
    out.append(quoted_exec(text_at_exec(p, "version")).as_str());
    out.append("\n\n");
    out.append("[build]\n");
    out.append("language = ");
    out.append(quoted_exec(text_at_exec(b, "language")).as_str());
    out.append("\n");
    out.append("standard = ");
    out.append(quoted_exec(text_at_exec(b, "standard")).as_str());
    out.append("\n");
    out.append("compiler = ");
    out.append(quoted_exec(text_at_exec(b, "compiler")).as_str());
    out.append("\n");
    let ghost head = out@;
    match table_get(b, "target") {
        Some(x) => match x.as_str() {
            Some(t) => if !is_blank(t) {
                out.append("target = ");
                out.append(quoted_exec(t).as_str());
                out.append("\n");
            },
            None => {},
        },
        None => {},
    }
    let ghost with_target = out@;
    match table_get(b, "cflags") {
        Some(c) => {
            out.append("cflags = ");
            out.append(string_array_text_exec(c).as_str());
            out.append("\n");
        },
        None => {},
    }
    let ghost with_cflags = out@;
    match table_get(b, "ldflags") {
        Some(c) => {
            out.append("ldflags = ");
            out.append(string_array_text_exec(c).as_str());
            out.append("\n");
        },
        None => {},
    }
    let ghost with_ldflags = out@;
    out.append("\n");
    out.append("[dependencies]\n");
    out.append(dep_lines_exec(d).as_str());
    proof {
        let bm = model_tab(b@);
        let target = match tab_get(bm, "target"@) {
            Some(Toml::Str(t)) => opt_line(trim(t).len() > 0, "target = "@ + quoted(t) + "\n"@),
            _ => Seq::<char>::empty(),
        };
        let cflags = match tab_get(bm, "cflags"@) {
            Some(c) => "cflags = "@ + string_array_text(c) + "\n"@,
            None => Seq::<char>::empty(),
        };
        let ldflags = match tab_get(bm, "ldflags"@) {
            Some(c) => "ldflags = "@ + string_array_text(c) + "\n"@,
            None => Seq::<char>::empty(),
        };
        assert(with_target =~= head + target);
        assert(with_cflags =~= head + target + cflags);
        assert(with_ldflags =~= head + target + cflags + ldflags);
        match manifest_text_spec(v.model()) {
            Ok(s) => assert(out@ =~= s),
            Err(_) => {},
        }
    }
    Ok(out)
}

// ---------------------------------------------------------------------------
// The full default manifest and dependency key order
// ---------------------------------------------------------------------------

/// The manifest `Config::new` writes for a project named `name`.
pub open spec fn default_manifest_text_spec(name: Seq<char>) -> Seq<char> {
    "[package]\nname = \""@ + name + "\"\nversion = \"0.1.0\"\ntype = \"none\"\ndescription = \"\"\nauthor = \"\"\nlicense = \"GPL-3.0-or-later\"\n\n[build]\nlanguage = \"c\"\nstandard = \"c11\"\ncompiler = \"clang\"\nkind = \"bin\"\n\n[dependencies]\n"@
}

/// The default manifest text.
pub fn default_manifest_text(name: &str) -> (r: String)
    ensures
        r@ == default_manifest_text_spec(name@),
{
    concat3(
        "[package]\nname = \"",
        name,
        "\"\nversion = \"0.1.0\"\ntype = \"none\"\ndescription = \"\"\nauthor = \"\"\nlicense = \"GPL-3.0-or-later\"\n\n[build]\nlanguage = \"c\"\nstandard = \"c11\"\ncompiler = \"clang\"\nkind = \"bin\"\n\n[dependencies]\n",
    )
}

/// The order in which the known settings of a dependency table are written.
pub open spec fn dep_key_order() -> Seq<Seq<char>> {
    seq!["version"@, "path"@, "git"@, "branch"@, "tag"@, "rev"@, "default-features"@, "features"@, "system"@]
}

/// The known keys present in a table, in the known order.
pub open spec fn known_keys_present(order: Seq<Seq<char>>, keys: Seq<Seq<char>>) -> Seq<Seq<char>>
    decreases order.len(),
{
    if order.len() == 0 {
        Seq::empty()
    } else {
        let rest = known_keys_present(order.drop_last(), keys);
        if keys.contains(order.last()) {
            rest.push(order.last())
        } else {
            rest
        }
    }
}

/// The keys of a table's entries.
pub open spec fn entry_keys(t: Seq<(Seq<char>, Toml)>) -> Seq<Seq<char>> {
    t.map_values(|e: (Seq<char>, Toml)| e.0)
}

/// The order of the keys of an inline dependency table: the known settings
/// first, in their order, then every other key in ascending order.
pub open spec fn ordered_keys_ok(r: Seq<Seq<char>>, t: Seq<(Seq<char>, Toml)>) -> bool {
    let keys = entry_keys(t);
    let known = known_keys_present(dep_key_order(), keys);
    &&& r.len() >= known.len()
    &&& r.take(known.len() as int) == known
    &&& crate::value::strictly_sorted(r.skip(known.len() as int))
    &&& forall|k: Seq<char>| #[trigger] r.skip(known.len() as int).contains(k) <==> (keys.contains(k)
        && !dep_key_order().contains(k))
}

fn key_present(t: &Vec<(String, TomlValue)>, k: &str) -> (r: bool)
    ensures
        r == entry_keys(model_tab(t@)).contains(k@),
{
    let mut i: usize = 0;
    while i < t.len()
        invariant
            i <= t@.len(),
            forall|j: int| 0 <= j < i ==> entry_keys(model_tab(t@))[j] != k@,
        decreases t.len() - i,
    {
        if crate::text::str_eq(t[i].0.as_str(), k) {
            assert(entry_keys(model_tab(t@))[i as int] == k@);
            return true;
        }
        i = i + 1;
    }
    false
}

fn is_known_key(k: &str) -> (r: bool)
    ensures
        r == dep_key_order().contains(k@),
{
    let order: [&str; 9] = ["version", "path", "git", "branch", "tag", "rev", "default-features", "features", "system"];
    let ghost o = dep_key_order();
    assert(o.len() == 9);
    let mut i: usize = 0;
    while i < 9
        invariant
            i <= 9,
            o == dep_key_order(),
            forall|j: int| 0 <= j < 9 ==> #[trigger] order@[j]@ == o[j],
            forall|j: int| 0 <= j < i ==> o[j] != k@,
        decreases 9 - i,
    {
        if crate::text::str_eq(order[i], k) {
            assert(o[i as int] == k@);
            return true;
        }
        i = i + 1;
    }
    false
}

/// The key order of an inline dependency table (see `ordered_keys_ok`).
pub fn ordered_table_keys(t: &Vec<(String, TomlValue)>) -> (r: Vec<String>)
    ensures
        ordered_keys_ok(views(r@), model_tab(t@)),
{
    let order: [&str; 9] = ["version", "path", "git", "branch", "tag", "rev", "default-features", "features", "system"];
    let ghost o = dep_key_order();
    let ghost keys = entry_keys(model_tab(t@));
    let mut known: Vec<String> = Vec::new();
    let mut i: usize = 0;
    assert(views(known@) =~= known_keys_present(o.take(0), keys));
    while i < 9
        invariant
            i <= 9,
            o == dep_key_order(),
            keys == entry_keys(model_tab(t@)),
            forall|j: int| 0 <= j < 9 ==> #[trigger] order@[j]@ == o[j],
            views(known@) == known_keys_present(o.take(i as int), keys),
        decreases 9 - i,
    {
        assert(o.take(i + 1).drop_last() =~= o.take(i as int));
        assert(o.take(i + 1).last() == order@[i as int]@);
        if key_present(t, order[i]) {
            let ghost before = views(known@);
            push_str_item(&mut known, order[i]);
        }
        i = i + 1;
    }
    assert(o.take(9) =~= o);
    let mut rest: Vec<String> = Vec::new();
    let mut j: usize = 0;
    while j < t.len()
        invariant
            j <= t@.len(),
            keys == entry_keys(model_tab(t@)),
            forall|k: Seq<char>| #[trigger] views(rest@).contains(k) <==> (keys.take(j as int).contains(k)
                && !dep_key_order().contains(k)),
        decreases t.len() - j,
    {
        let ghost before = views(rest@);
        assert(keys.take(j + 1) =~= keys.take(j as int).push(t@[j as int].0@));
        if !is_known_key(t[j].0.as_str()) {
            push_str_item(&mut rest, t[j].0.as_str());
            assert forall|k: Seq<char>| #[trigger] views(rest@).contains(k) <==> (keys.take(j + 1).contains(k)
                && !dep_key_order().contains(k)) by {
                if views(rest@).contains(k) {
                    let w = choose|w: int| 0 <= w < views(rest@).len() && #[trigger] views(rest@)[w] == k;
                    if w < before.len() {
                        assert(before.contains(k));
                        let x = choose|x: int| 0 <= x < keys.take(j as int).len() && #[trigger] keys.take(j as int)[x] == k;
                        assert(keys.take(j + 1)[x] == k);
                    } else {
                        assert(keys.take(j + 1)[j as int] == k);
                    }
                }
                if keys.take(j + 1).contains(k) && !dep_key_order().contains(k) {
                    let x = choose|x: int| 0 <= x < keys.take(j + 1).len() && #[trigger] keys.take(j + 1)[x] == k;
                    if x < j {
                        assert(keys.take(j as int)[x] == k);
                        assert(before.contains(k));
                        let w = choose|w: int| 0 <= w < before.len() && #[trigger] before[w] == k;
                        assert(views(rest@)[w] == k);
                    } else {
                        assert(views(rest@)[before.len() as int] == k);
                    }
                }
            }
        } else {
            assert forall|k: Seq<char>| #[trigger] views(rest@).contains(k) <==> (keys.take(j + 1).contains(k)
                && !dep_key_order().contains(k)) by {
                if views(rest@).contains(k) {
                    let x = choose|x: int| 0 <= x < keys.take(j as int).len() && #[trigger] keys.take(j as int)[x] == k;
                    assert(keys.take(j + 1)[x] == k);
                }
                if keys.take(j + 1).contains(k) && !dep_key_order().contains(k) {
                    let x = choose|x: int| 0 <= x < keys.take(j + 1).len() && #[trigger] keys.take(j + 1)[x] == k;
                    if x < j {
                        assert(keys.take(j as int)[x] == k);
                    }
                }
            }
        }
        j = j + 1;
    }
    assert(keys.take(t@.len() as int) =~= keys);
    let sorted = crate::value::sort_dedup(&rest);
    let ghost kn = views(known@);
    crate::text::extend_strings(&mut known, sorted.as_slice());
    assert(views(known@).take(kn.len() as int) =~= kn);
    assert(views(known@).skip(kn.len() as int) =~= views(sorted@));
    known
}

// ---------------------------------------------------------------------------
// Laws
// ---------------------------------------------------------------------------

/// The manifest text of a new project named `name`.
pub open spec fn new_project_text(name: Seq<char>) -> Seq<char> {
    "[package]\nname = \""@ + name
        + "\"\nversion = \"0.1.0\"\n\n[build]\nlanguage = \"c\"\nstandard = \"c11\"\ncompiler = \"clang\"\n\n[dependencies]\n"@
}

/// The manifest text of a new project, piece by piece as it is written.
pub open spec fn new_project_pieces(name: Seq<char>) -> Seq<char> {
    "[package]\n"@ + "name = "@ + quoted(name) + "\n"@ + "version = "@ + quoted("0.1.0"@) + "\n\n"@ + "[build]\n"@
        + "language = "@ + quoted("c"@) + "\n"@ + "standard = "@ + quoted("c11"@) + "\n"@ + "compiler = "@ + quoted(
        "clang"@,
    ) + "\n"@ + Seq::<char>::empty() + Seq::<char>::empty() + Seq::<char>::empty() + "\n"@ + "[dependencies]\n"@
        + dep_lines(Seq::<(Seq<char>, Toml)>::empty())
}

#[verifier::rlimit(40)]
proof fn lemma_new_project_pieces(name: Seq<char>)
    ensures
        new_project_pieces(name) == new_project_text(name),
{
    reveal_strlit("[package]\n");
    reveal_strlit("name = ");
    reveal_strlit("\n");
    reveal_strlit("version = ");
    reveal_strlit("\n\n");
    reveal_strlit("[build]\n");
    reveal_strlit("language = ");
    reveal_strlit("standard = ");
    reveal_strlit("compiler = ");
    reveal_strlit("[dependencies]\n");
    reveal_strlit("\"");
    reveal_strlit("0.1.0");
    reveal_strlit("c");
    reveal_strlit("c11");
    reveal_strlit("clang");
    reveal_strlit("[package]\nname = \"");
    reveal_strlit("\"\nversion = \"0.1.0\"\n\n[build]\nlanguage = \"c\"\nstandard = \"c11\"\ncompiler = \"clang\"\n\n[dependencies]\n");
    let q = "\""@;
    let nl = "\n"@;
    let pre = "[package]\n"@ + "name = "@ + q;
    let acc0 = "[package]\n"@ + "name = "@ + (q + name + q);
    let tail0 = q;
    assert(acc0 =~= pre + name + tail0);
    let acc1 = acc0 + nl;
    let tail1 = tail0 + nl;
    assert(acc1 =~= pre + name + tail1);
    let acc2 = acc1 + "version = "@;
    let tail2 = tail1 + "version = "@;
    assert(acc2 =~= pre + name + tail2);
    let acc3 = acc2 + (q + "0.1.0"@ + q);
    let tail3 = tail2 + (q + "0.1.0"@ + q);
    assert(acc3 =~= pre + name + tail3);
    let acc4 = acc3 + "\n\n"@;
    let tail4 = tail3 + "\n\n"@;
    assert(acc4 =~= pre + name + tail4);
    let acc5 = acc4 + "[build]\n"@;
    let tail5 = tail4 + "[build]\n"@;
    assert(acc5 =~= pre + name + tail5);
    let acc6 = acc5 + "language = "@;
    let tail6 = tail5 + "language = "@;
    assert(acc6 =~= pre + name + tail6);
    let acc7 = acc6 + (q + "c"@ + q);
    let tail7 = tail6 + (q + "c"@ + q);
    assert(acc7 =~= pre + name + tail7);
    let acc8 = acc7 + nl;
    let tail8 = tail7 + nl;
    assert(acc8 =~= pre + name + tail8);
    let acc9 = acc8 + "standard = "@;
    let tail9 = tail8 + "standard = "@;
    assert(acc9 =~= pre + name + tail9);
    let acc10 = acc9 + (q + "c11"@ + q);
    let tail10 = tail9 + (q + "c11"@ + q);
    assert(acc10 =~= pre + name + tail10);
    let acc11 = acc10 + nl;
    let tail11 = tail10 + nl;
    assert(acc11 =~= pre + name + tail11);
    let acc12 = acc11 + "compiler = "@;
    let tail12 = tail11 + "compiler = "@;
    assert(acc12 =~= pre + name + tail12);
    let acc13 = acc12 + (q + "clang"@ + q);
    let tail13 = tail12 + (q + "clang"@ + q);
    assert(acc13 =~= pre + name + tail13);
    let acc14 = acc13 + nl;
    let tail14 = tail13 + nl;
    assert(acc14 =~= pre + name + tail14);
    let acc15 = acc14 + Seq::<char>::empty();
    let tail15 = tail14 + Seq::<char>::empty();
    assert(acc15 =~= pre + name + tail15);
    let acc16 = acc15 + Seq::<char>::empty();
    let tail16 = tail15 + Seq::<char>::empty();
    assert(acc16 =~= pre + name + tail16);
    let acc17 = acc16 + Seq::<char>::empty();
    let tail17 = tail16 + Seq::<char>::empty();
    assert(acc17 =~= pre + name + tail17);
    let acc18 = acc17 + nl;
    let tail18 = tail17 + nl;
    assert(acc18 =~= pre + name + tail18);
    let acc19 = acc18 + "[dependencies]\n"@;
    let tail19 = tail18 + "[dependencies]\n"@;
    assert(acc19 =~= pre + name + tail19);
    let acc20 = acc19 + dep_lines(Seq::<(Seq<char>, Toml)>::empty());
    let tail20 = tail19 + dep_lines(Seq::<(Seq<char>, Toml)>::empty());
    assert(acc20 =~= pre + name + tail20);
    assert(pre =~= "[package]\nname = \""@);
    assert(tail20 =~= "\"\nversion = \"0.1.0\"\n\n[build]\nlanguage = \"c\"\nstandard = \"c11\"\ncompiler = \"clang\"\n\n[dependencies]\n"@);
    let suf = tail20;
    let whole = acc20;
    assert(whole == new_project_pieces(name));
}

/// A new project whose name is a valid, non-empty package name gets a manifest
/// that passes the required-field check, and its text is the fixed template
/// with the name filled in.
pub proof fn lemma_new_project_manifest(name: Seq<char>)
    requires
        crate::validation::package_name_check(name) is Ok,
        name.len() > 0,
    ensures
        check_manifest_spec(default_manifest_spec(name)) == Ok::<(), Seq<char>>(()),
        manifest_text_spec(default_manifest_spec(name)) == Ok::<Seq<char>, Seq<char>>(new_project_text(name)),
{
    reveal_strlit("build");
    reveal_strlit("dependencies");
    reveal_strlit("package");
    reveal_strlit("name");
    reveal_strlit("version");
    reveal_strlit("language");
    reveal_strlit("standard");
    reveal_strlit("compiler");
    reveal_strlit("target");
    reveal_strlit("cflags");
    reveal_strlit("ldflags");
    reveal_strlit("0.1.0");
    reveal_strlit("c");
    reveal_strlit("c11");
    reveal_strlit("clang");
    reveal_strlit("[package]\n");
    reveal_strlit("name = ");
    reveal_strlit("\n");
    reveal_strlit("version = ");
    reveal_strlit("\n\n");
    reveal_strlit("[build]\n");
    reveal_strlit("language = ");
    reveal_strlit("standard = ");
    reveal_strlit("compiler = ");
    reveal_strlit("[dependencies]\n");
    reveal_strlit("\"");
    reveal_strlit("[package]\nname = \"");
    reveal_strlit("\"\nversion = \"0.1.0\"\n\n[build]\nlanguage = \"c\"\nstandard = \"c11\"\ncompiler = \"clang\"\n\n[dependencies]\n");
    reveal_with_fuel(first_blank, 4);
    reveal_with_fuel(tab_get, 4);
    let v = default_manifest_spec(name);
    let b = seq![("compiler"@, Toml::Str("clang"@)), ("language"@, Toml::Str("c"@)), ("standard"@, Toml::Str("c11"@))];
    let p = seq![("name"@, Toml::Str(name)), ("version"@, Toml::Str("0.1.0"@))];
    let root = seq![("build"@, Toml::Tab(b)), ("dependencies"@, Toml::Tab(Seq::empty())), ("package"@, Toml::Tab(p))];
    assert(v == Toml::Tab(root));
    assert(root.drop_first() =~= seq![("dependencies"@, Toml::Tab(Seq::empty())), ("package"@, Toml::Tab(p))]);
    assert(root.drop_first().drop_first() =~= seq![("package"@, Toml::Tab(p))]);
    assert("build"@.len() == 5 && "package"@.len() == 7 && "dependencies"@.len() == 12);
    assert("build"@ != "package"@ && "dependencies"@ != "package"@ && "build"@ != "dependencies"@);
    assert(tab_get(root, "dependencies"@) == Some(Toml::Tab(Seq::<(Seq<char>, Toml)>::empty())));
    assert(tab_get(root, "package"@) == Some(Toml::Tab(p)));
    assert(sub_table(v, "package"@) == Some(p));
    assert(sub_table(v, "build"@) == Some(b));
    assert(sub_table(v, "dependencies"@) == Some(Seq::<(Seq<char>, Toml)>::empty()));
    assert(crate::text::trim(name) == name);
    assert(crate::text::trim("0.1.0"@).len() > 0) by {
        reveal_with_fuel(crate::text::trim_start, 2);
        reveal_with_fuel(crate::text::trim_end, 2);
    }
    assert(crate::text::trim("c"@).len() > 0) by {
        reveal_with_fuel(crate::text::trim_start, 2);
        reveal_with_fuel(crate::text::trim_end, 2);
    }
    assert(crate::text::trim("c11"@).len() > 0) by {
        reveal_with_fuel(crate::text::trim_start, 2);
        reveal_with_fuel(crate::text::trim_end, 2);
    }
    assert(crate::text::trim("clang"@).len() > 0) by {
        reveal_with_fuel(crate::text::trim_start, 2);
        reveal_with_fuel(crate::text::trim_end, 2);
    }
    assert(seq!["name"@, "version"@].drop_first() =~= seq!["version"@]);
    assert(seq!["version"@].drop_first() =~= Seq::<Seq<char>>::empty());
    let ks = seq!["language"@, "standard"@, "compiler"@];
    assert(ks.drop_first() =~= seq!["standard"@, "compiler"@]);
    assert(ks.drop_first().drop_first() =~= seq!["compiler"@]);
    assert(ks.drop_first().drop_first().drop_first() =~= Seq::<Seq<char>>::empty());
    assert("target"@.len() == 6 && "cflags"@.len() == 6 && "ldflags"@.len() == 7);
    assert("compiler"@.len() == 8 && "language"@.len() == 8 && "standard"@.len() == 8);
    assert(b.drop_first() =~= seq![("language"@, Toml::Str("c"@)), ("standard"@, Toml::Str("c11"@))]);
    assert(b.drop_first().drop_first() =~= seq![("standard"@, Toml::Str("c11"@))]);
    assert(b.drop_first().drop_first().drop_first() =~= Seq::<(Seq<char>, Toml)>::empty());
    assert(tab_get(b, "target"@) is None);
    assert(tab_get(b, "cflags"@) is None);
    assert(tab_get(b, "ldflags"@) is None);
    assert(p.drop_first() =~= seq![("version"@, Toml::Str("0.1.0"@))]);
    assert(p.drop_first().drop_first() =~= Seq::<(Seq<char>, Toml)>::empty());
    assert("name"@.len() == 4 && "version"@.len() == 7);
    assert(text_at(p, "name"@) == name);
    assert(text_at(p, "version"@) == "0.1.0"@);
    assert("compiler"@[0] == 'c' && "language"@[0] == 'l' && "standard"@[0] == 's');
    assert("compiler"@ != "language"@ && "compiler"@ != "standard"@ && "language"@ != "standard"@);
    assert(text_at(b, "language"@) == "c"@);
    assert(text_at(b, "standard"@) == "c11"@);
    assert(text_at(b, "compiler"@) == "clang"@);
    assert(manifest_text_spec(v) == Ok::<Seq<char>, Seq<char>>(new_project_pieces(name)));
    lemma_new_project_pieces(name);
}

} // verus!
