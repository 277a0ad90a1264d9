//! The project manifest (`dcr.toml`): its typed sections, dotted-key access to
//! the raw value, and the validation rules.
use vstd::prelude::*;

use crate::text::{chars_of, concat3, push_char, str_eq, string_of, views};
use crate::value::{
    lemma_tab_insert_get, lemma_tab_insert_other, lemma_tab_insert_wf, lemma_table_model, model_tab, str_lt, tab_find,
    tab_get, tab_insert, table_insert, wf, Toml, TomlValue,
};

verus! {

/// Why a manifest could not be read, changed or accepted.
#[derive(Debug)]
pub enum ConfigError {
    /// The file could not be read or written.
    Io(String),
    /// The text is not TOML, or a section has the wrong shape.
    TomlDe(String),
    /// The value could not be written as TOML.
    TomlSer(String),
    /// The text could not be parsed as an editable document.
    TomlEdit(String),
    /// The manifest breaks a rule.
    Invalid(String),
}

/// The error is `Invalid` with message `m`.
pub open spec fn is_invalid(e: ConfigError, m: Seq<char>) -> bool {
    match e {
        ConfigError::Invalid(s) => s@ == m,
        _ => false,
    }
}

impl ConfigError {
    /// The message shown to the user.
    pub fn message(&self) -> (r: String)
        ensures
            r@ == config_error_message(*self),
    {
        match self {
            ConfigError::Io(e) => crate::text::concat2("I/O error: ", e.as_str()),
            ConfigError::TomlDe(e) => crate::text::concat2("TOML parse error: ", e.as_str()),
            ConfigError::TomlSer(e) => crate::text::concat2("TOML serialize error: ", e.as_str()),
            ConfigError::TomlEdit(e) => crate::text::concat2("TOML parse error: ", e.as_str()),
            ConfigError::Invalid(m) => crate::text::concat2("Invalid config: ", m.as_str()),
        }
    }
}

/// The message of each error.
pub open spec fn config_error_message(e: ConfigError) -> Seq<char> {
    match e {
        ConfigError::Io(s) => "I/O error: "@ + s@,
        ConfigError::TomlDe(s) => "TOML parse error: "@ + s@,
        ConfigError::TomlSer(s) => "TOML serialize error: "@ + s@,
        ConfigError::TomlEdit(s) => "TOML parse error: "@ + s@,
        ConfigError::Invalid(s) => "Invalid config: "@ + s@,
    }
}

// ---------------------------------------------------------------------------
// Dotted keys
// ---------------------------------------------------------------------------

/// `str::split('.')`: the pieces between dots, empty ones included.
pub open spec fn split_dots(s: Seq<char>) -> Seq<Seq<char>>
    decreases s.len(),
{
    if s.len() == 0 {
        seq![Seq::empty()]
    } else {
        let r = split_dots(s.drop_last());
        if s.last() == '.' {
            r.push(Seq::empty())
        } else {
            r.update(r.len() - 1, r.last().push(s.last()))
        }
    }
}

proof fn lemma_split_dots_nonempty(s: Seq<char>)
    ensures
        split_dots(s).len() >= 1,
    decreases s.len(),
{
    if s.len() > 0 {
        lemma_split_dots_nonempty(s.drop_last());
    }
}

/// Splits a dotted key into its parts.
pub fn split_key(key: &str) -> (r: Vec<String>)
    ensures
        views(r@) == split_dots(key@),
        r@.len() >= 1,
{
    let v = chars_of(key);
    let mut parts: Vec<String> = Vec::new();
    let mut cur: Vec<char> = Vec::new();
    let mut i: usize = 0;
    while i < v.len()
        invariant
            v@ == key@,
            i <= v@.len(),
            views(parts@).push(cur@) == split_dots(v@.take(i as int)),
        decreases v.len() - i,
    {
        proof {
            lemma_split_dots_nonempty(v@.take(i as int));
        }
        assert(v@.take(i + 1).drop_last() =~= v@.take(i as int));
        let c = v[i];
        if c == '.' {
            let ghost before = parts@;
            let piece = string_of(&cur);
            parts.push(piece);
            cur = Vec::new();
            assert(views(parts@) =~= views(before).push(piece@));
            assert(views(parts@).push(cur@) =~= views(before).push(piece@).push(Seq::empty()));
        } else {
            let ghost before = cur@;
            cur.push(c);
            assert(views(parts@).push(cur@) =~= views(parts@).push(before).update(
                views(parts@).len() as int,
                before.push(c),
            ));
        }
        i = i + 1;
    }
    assert(v@.take(v@.len() as int) =~= v@);
    let ghost before = parts@;
    let last = string_of(&cur);
    parts.push(last);
    assert(views(parts@) =~= views(before).push(last@));
    parts
}

// ---------------------------------------------------------------------------
// Reading and writing by path
// ---------------------------------------------------------------------------

/// The value reached from `v` by following the keys of `path` through tables.
pub open spec fn get_path_spec(v: Toml, path: Seq<Seq<char>>) -> Option<Toml>
    decreases path.len(),
{
    if path.len() == 0 {
        Some(v)
    } else {
        match v {
            Toml::Tab(t) => match tab_get(t, path[0]) {
                Some(c) => get_path_spec(c, path.drop_first()),
                None => None,
            },
            _ => None,
        }
    }
}

/// The message for a key whose value is not a table.
pub open spec fn not_a_table(key: Seq<char>) -> Seq<char> {
    "'"@ + key + "' is not a table"@
}

/// Table `t` with the value at `path` set to `x`: missing intermediate tables
/// are created; an intermediate value that is not a table is an error.
pub open spec fn set_in_tab(t: Seq<(Seq<char>, Toml)>, path: Seq<Seq<char>>, x: Toml) -> Result<
    Seq<(Seq<char>, Toml)>,
    Seq<char>,
>
    decreases path.len(),
{
    if path.len() == 0 {
        Err("empty key"@)
    } else if path.len() == 1 {
        Ok(tab_insert(t, path[0], x))
    } else {
        let child = match tab_find(t, path[0]) {
            Some(c) => c,
            None => Toml::Tab(Seq::empty()),
        };
        match child {
            Toml::Tab(ct) => match set_in_tab(ct, path.drop_first(), x) {
                Ok(nt) => Ok(tab_insert(t, path[0], Toml::Tab(nt))),
                Err(e) => Err(e),
            },
            _ => Err(not_a_table(path[0])),
        }
    }
}

/// `v` with the value at `path` set to `x`, or the error message.
pub open spec fn set_path_spec(v: Toml, path: Seq<Seq<char>>, x: Toml) -> Result<Toml, Seq<char>> {
    match v {
        Toml::Tab(t) => match set_in_tab(t, path, x) {
            Ok(nt) => Ok(Toml::Tab(nt)),
            Err(e) => Err(e),
        },
        _ => Err("root is not a table"@),
    }
}

/// The value at `path` in `value`, if every step goes through a table.
pub fn get_path<'a>(value: &'a TomlValue, path: &[String]) -> (r: Option<&'a TomlValue>)
    ensures
        match r {
            Some(x) => get_path_spec(value.model(), views(path@)) == Some(x.model()),
            None => get_path_spec(value.model(), views(path@)) is None,
        },
{
    let mut current = value;
    let mut i: usize = 0;
    assert(views(path@).skip(0) =~= views(path@));
    while i < path.len()
        invariant
            i <= path@.len(),
            get_path_spec(value.model(), views(path@)) == get_path_spec(
                current.model(),
                views(path@).skip(i as int),
            ),
        decreases path.len() - i,
    {
        let ghost rest = views(path@).skip(i as int);
        assert(rest.drop_first() =~= views(path@).skip(i + 1));
        assert(rest[0] == path@[i as int]@);
        match current {
            TomlValue::Table(t) => {
                assert(current.model() == Toml::Tab(model_tab(t@))) by {
                    assert(model_tab(t@) =~= match current.model() {
                        Toml::Tab(m) => m,
                        _ => Seq::empty(),
                    });
                }
                match crate::value::table_get(t, path[i].as_str()) {
                    Some(c) => {
                        current = c;
                    },
                    None => {
                        return None;
                    },
                }
            },
            _ => {
                return None;
            },
        }
        i = i + 1;
    }
    Some(current)
}

/// Sets the value at `path[start..]` inside table `t`; on an error `t` is left
/// as it was.
fn set_in_table(t: &mut Vec<(String, TomlValue)>, path: &[String], start: usize, x: TomlValue) -> (r: Result<
    (),
    ConfigError,
>)
    requires
        start < path@.len(),
    ensures
        match set_in_tab(model_tab(old(t)@), views(path@).skip(start as int), x.model()) {
            Ok(nt) => r is Ok && model_tab(final(t)@) == nt,
            Err(e) => r is Err && is_invalid(r->Err_0, e) && model_tab(final(t)@) == model_tab(old(t)@),
        },
    decreases path@.len() - start,
{
    let ghost p = views(path@).skip(start as int);
    let ghost m0 = model_tab(t@);
    assert(p[0] == path@[start as int]@);
    if start == path.len() - 1 {
        let k = path[start].clone();
        table_insert(t, k, x);
        return Ok(());
    }
    assert(p.drop_first() =~= views(path@).skip(start + 1));
    let key = path[start].as_str();
    let mut i: usize = 0;
    assert(m0.skip(0) =~= m0);
    assert(forall|y: Toml| #[trigger] tab_insert(m0, key@, y) =~= m0.take(0) + tab_insert(m0.skip(0), key@, y));
    while i < t.len() && !crate::text::str_eq(t[i].0.as_str(), key) && !str_lt(key, t[i].0.as_str())
        invariant
            i <= t@.len(),
            m0 == model_tab(t@),
            key@ == p[0],
            tab_find(m0, key@) == tab_find(m0.skip(i as int), key@),
            forall|y: Toml| #[trigger] tab_insert(m0, key@, y) == m0.take(i as int) + tab_insert(m0.skip(i as int), key@, y),
        decreases t.len() - i,
    {
        let ghost rest = m0.skip(i as int);
        assert(rest.drop_first() =~= m0.skip(i + 1));
        assert(m0.take(i + 1) =~= m0.take(i as int).push(rest[0]));
        assert forall|y: Toml| #[trigger] tab_insert(m0, key@, y) == m0.take(i + 1) + tab_insert(m0.skip(i + 1), key@, y) by {
            assert(m0.take(i as int) + (seq![rest[0]] + tab_insert(rest.drop_first(), key@, y)) =~= m0.take(i + 1)
                + tab_insert(m0.skip(i + 1), key@, y));
        }
        i = i + 1;
    }
    if i < t.len() && crate::text::str_eq(t[i].0.as_str(), key) {
        let ghost rest = m0.skip(i as int);
        assert(rest.drop_first() =~= m0.skip(i + 1));
        assert(rest[0] == (t@[i as int].0@, t@[i as int].1.model()));
        let (k, child) = t.remove(i);
        match child {
            TomlValue::Table(mut ct) => {
                proof {
                    lemma_table_model(ct);
                }
                let ghost c0 = model_tab(ct@);
                let r = set_in_table(&mut ct, path, start + 1, x);
                proof {
                    lemma_table_model(ct);
                }
                t.insert(i, (k, TomlValue::Table(ct)));
                assert(model_tab(t@) =~= m0.take(i as int) + (seq![(key@, Toml::Tab(model_tab(ct@)))] + rest.drop_first()));
                if r.is_err() {
                    assert(model_tab(t@) =~= m0);
                }
                r
            },
            other => {
                let ghost om = other.model();
                t.insert(i, (k, other));
                assert(model_tab(t@) =~= m0);
                assert(om !is Tab) by {
                    if om is Tab {
                        match other {
                            TomlValue::Table(_) => {},
                            _ => {},
                        }
                    }
                }
                Err(ConfigError::Invalid(concat3("'", key, "' is not a table")))
            },
        }
    } else {
        let ghost rest = m0.skip(i as int);
        assert(tab_find(rest, key@) is None);
        let mut ct: Vec<(String, TomlValue)> = Vec::new();
        assert(model_tab(ct@) =~= Seq::<(Seq<char>, Toml)>::empty());
        let r = set_in_table(&mut ct, path, start + 1, x);
        proof {
            lemma_set_in_empty_ok(p.drop_first(), x.model());
            lemma_table_model(ct);
        }
        let k = path[start].clone();
        t.insert(i, (k, TomlValue::Table(ct)));
        assert(model_tab(t@) =~= m0.take(i as int) + (seq![(key@, Toml::Tab(model_tab(ct@)))] + rest));
        r
    }
}

/// Setting a path below a new, empty table always succeeds.
proof fn lemma_set_in_empty_ok(path: Seq<Seq<char>>, x: Toml)
    requires
        path.len() >= 1,
    ensures
        set_in_tab(Seq::empty(), path, x) is Ok,
    decreases path.len(),
{
    if path.len() > 1 {
        lemma_set_in_empty_ok(path.drop_first(), x);
    }
}

/// Sets the value at `path` in `value` (a table), creating missing tables.
pub fn set_path(value: &mut TomlValue, path: &[String], new_value: TomlValue) -> (r: Result<(), ConfigError>)
    ensures
        match set_path_spec(old(value).model(), views(path@), new_value.model()) {
            Ok(v) => r is Ok && final(value).model() == v,
            Err(e) => r is Err && is_invalid(r->Err_0, e) && final(value).model() == old(value).model(),
        },
{
    match value {
        TomlValue::Table(t) => {
            proof {
                lemma_table_model(*t);
            }
            if path.len() == 0 {
                return Err(ConfigError::Invalid(String::from_str("empty key")));
            }
            assert(views(path@).skip(0) =~= views(path@));
            let r = set_in_table(t, path, 0, new_value);
            proof {
                lemma_table_model(*t);
            }
            r
        },
        _ => Err(ConfigError::Invalid(String::from_str("root is not a table"))),
    }
}

// ---------------------------------------------------------------------------
// Laws of reading and writing
// ---------------------------------------------------------------------------

proof fn lemma_set_in_tab_get(t: Seq<(Seq<char>, Toml)>, path: Seq<Seq<char>>, x: Toml)
    requires
        set_in_tab(t, path, x) is Ok,
    ensures
        get_path_spec(Toml::Tab(set_in_tab(t, path, x)->Ok_0), path) == Some(x),
    decreases path.len(),
{
    let nt = set_in_tab(t, path, x)->Ok_0;
    if path.len() == 1 {
        lemma_tab_insert_get(t, path[0], x);
        assert(get_path_spec(x, path.drop_first()) == Some(x));
    } else {
        let child = match tab_find(t, path[0]) {
            Some(c) => c,
            None => Toml::Tab(Seq::empty()),
        };
        let ct = match child {
            Toml::Tab(ct) => ct,
            _ => Seq::empty(),
        };
        let nct = set_in_tab(ct, path.drop_first(), x)->Ok_0;
        lemma_tab_insert_get(t, path[0], Toml::Tab(nct));
        lemma_set_in_tab_get(ct, path.drop_first(), x);
    }
}

/// Reading a path after writing it gives back the value written.
pub proof fn lemma_set_then_get(v: Toml, path: Seq<Seq<char>>, x: Toml)
    requires
        set_path_spec(v, path, x) is Ok,
    ensures
        get_path_spec(set_path_spec(v, path, x)->Ok_0, path) == Some(x),
{
    if let Toml::Tab(t) = v {
        lemma_set_in_tab_get(t, path, x);
    }
}

proof fn lemma_set_in_tab_other(t: Seq<(Seq<char>, Toml)>, path: Seq<Seq<char>>, x: Toml, q: Seq<Seq<char>>, i: int)
    requires
        wf(Toml::Tab(t)),
        set_in_tab(t, path, x) is Ok,
        0 <= i < path.len(),
        i < q.len(),
        path[i] != q[i],
        forall|j: int| 0 <= j < i ==> path[j] == q[j],
    ensures
        get_path_spec(Toml::Tab(set_in_tab(t, path, x)->Ok_0), q) == get_path_spec(Toml::Tab(t), q),
    decreases path.len(),
{
    let nt = set_in_tab(t, path, x)->Ok_0;
    if i == 0 {
        if path.len() == 1 {
            lemma_tab_insert_other(t, path[0], x, q[0]);
        } else {
            let child = match tab_find(t, path[0]) {
                Some(c) => c,
                None => Toml::Tab(Seq::empty()),
            };
            let ct = match child {
                Toml::Tab(ct) => ct,
                _ => Seq::empty(),
            };
            lemma_tab_insert_other(t, path[0], Toml::Tab(set_in_tab(ct, path.drop_first(), x)->Ok_0), q[0]);
        }
    } else {
        assert(path[0] == q[0]);
        let child = match tab_find(t, path[0]) {
            Some(c) => c,
            None => Toml::Tab(Seq::empty()),
        };
        let ct = match child {
            Toml::Tab(ct) => ct,
            _ => Seq::empty(),
        };
        let nct = set_in_tab(ct, path.drop_first(), x)->Ok_0;
        lemma_tab_insert_get(t, path[0], Toml::Tab(nct));
        lemma_tab_find_wf(t, path[0]);
        lemma_sorted_find_get(t, path[0]);
        assert(wf(Toml::Tab(ct)));
        lemma_set_in_tab_other(ct, path.drop_first(), x, q.drop_first(), i - 1);
        assert(get_path_spec(Toml::Tab(nt), q) == get_path_spec(Toml::Tab(nct), q.drop_first()));
        if tab_get(t, q[0]) is None {
            assert(ct.len() == 0);
            assert(q.drop_first().len() > 0);
            assert(tab_get(ct, q.drop_first()[0]) is None);
        }
    }
}

/// In a table with ascending keys, the slot of `k` is the entry with key `k`.
proof fn lemma_sorted_find_get(t: Seq<(Seq<char>, Toml)>, k: Seq<char>)
    requires
        crate::value::keys_sorted(t),
    ensures
        tab_find(t, k) == tab_get(t, k),
    decreases t.len(),
{
    if t.len() > 0 && t[0].0 != k {
        let d = t.drop_first();
        assert(crate::value::keys_sorted(d)) by {
            assert forall|i: int, j: int| 0 <= i < j < d.len() implies crate::value::seq_lt(#[trigger] d[i].0, #[trigger] d[j].0) by {
                assert(d[i] == t[i + 1]);
                assert(d[j] == t[j + 1]);
            }
        }
        if crate::value::seq_lt(k, t[0].0) {
            lemma_tab_get_absent(d, k, t[0].0);
        } else {
            lemma_sorted_find_get(d, k);
        }
    }
}

/// A key below the bound of every key of `t` is not in `t`.
proof fn lemma_tab_get_absent(d: Seq<(Seq<char>, Toml)>, k: Seq<char>, b: Seq<char>)
    requires
        crate::value::seq_lt(k, b),
        forall|j: int| 0 <= j < d.len() ==> crate::value::seq_lt(b, #[trigger] d[j].0),
    ensures
        tab_get(d, k) is None,
    decreases d.len(),
{
    if d.len() > 0 {
        if d[0].0 == k {
            crate::value::lemma_seq_lt_asymmetric(k, b);
        }
        assert forall|j: int| 0 <= j < d.drop_first().len() implies crate::value::seq_lt(b, #[trigger] d.drop_first()[j].0) by {
            assert(d.drop_first()[j] == d[j + 1]);
        }
        lemma_tab_get_absent(d.drop_first(), k, b);
    }
}

/// When `tab_get` finds nothing, neither does `tab_find`; when `tab_find`
/// finds an entry, `tab_get` finds the same one or an earlier one with the key.
proof fn lemma_tab_find_get(t: Seq<(Seq<char>, Toml)>, k: Seq<char>)
    ensures
        tab_get(t, k) is None ==> tab_find(t, k) is None,
        tab_find(t, k) is Some ==> tab_get(t, k) == tab_find(t, k),
    decreases t.len(),
{
    if t.len() > 0 && t[0].0 != k {
        lemma_tab_find_get(t.drop_first(), k);
    }
}

/// Writing a path leaves every path that branches off it elsewhere unchanged.
pub proof fn lemma_set_keeps_other_paths(v: Toml, path: Seq<Seq<char>>, x: Toml, q: Seq<Seq<char>>, i: int)
    requires
        wf(v),
        set_path_spec(v, path, x) is Ok,
        0 <= i < path.len(),
        i < q.len(),
        path[i] != q[i],
        forall|j: int| 0 <= j < i ==> path[j] == q[j],
    ensures
        get_path_spec(set_path_spec(v, path, x)->Ok_0, q) == get_path_spec(v, q),
{
    if let Toml::Tab(t) = v {
        lemma_set_in_tab_other(t, path, x, q, i);
    }
}

proof fn lemma_set_in_tab_wf(t: Seq<(Seq<char>, Toml)>, path: Seq<Seq<char>>, x: Toml)
    requires
        wf(Toml::Tab(t)),
        wf(x),
        set_in_tab(t, path, x) is Ok,
    ensures
        wf(Toml::Tab(set_in_tab(t, path, x)->Ok_0)),
    decreases path.len(),
{
    if path.len() == 1 {
        lemma_tab_insert_wf(t, path[0], x);
    } else {
        let child = match tab_find(t, path[0]) {
            Some(c) => c,
            None => Toml::Tab(Seq::empty()),
        };
        let ct = match child {
            Toml::Tab(ct) => ct,
            _ => Seq::empty(),
        };
        lemma_tab_find_wf(t, path[0]);
        lemma_set_in_tab_wf(ct, path.drop_first(), x);
        lemma_tab_insert_wf(t, path[0], Toml::Tab(set_in_tab(ct, path.drop_first(), x)->Ok_0));
    }
}

proof fn lemma_tab_find_wf(t: Seq<(Seq<char>, Toml)>, k: Seq<char>)
    requires
        wf(Toml::Tab(t)),
    ensures
        match tab_find(t, k) {
            Some(c) => wf(c),
            None => true,
        },
    decreases t.len(),
{
    if t.len() > 0 && t[0].0 != k && !crate::value::seq_lt(k, t[0].0) {
        assert(wf(Toml::Tab(t.drop_first()))) by {
            assert forall|i: int, j: int| 0 <= i < j < t.drop_first().len() implies crate::value::seq_lt(
                #[trigger] t.drop_first()[i].0,
                #[trigger] t.drop_first()[j].0,
            ) by {
                assert(t.drop_first()[i] == t[i + 1]);
                assert(t.drop_first()[j] == t[j + 1]);
            }
            assert forall|i: int| 0 <= i < t.drop_first().len() implies wf(#[trigger] t.drop_first()[i].1) by {
                assert(t.drop_first()[i] == t[i + 1]);
            }
        }
        lemma_tab_find_wf(t.drop_first(), k);
    } else if t.len() > 0 && t[0].0 == k {
        assert(wf(t[0].1));
    }
}

/// Writing a well-formed value keeps every table's keys ascending.
pub proof fn lemma_set_keeps_wf(v: Toml, path: Seq<Seq<char>>, x: Toml)
    requires
        wf(v),
        wf(x),
        set_path_spec(v, path, x) is Ok,
    ensures
        wf(set_path_spec(v, path, x)->Ok_0),
{
    if let Toml::Tab(t) = v {
        lemma_set_in_tab_wf(t, path, x);
    }
}


// ---------------------------------------------------------------------------
// Typed sections
// ---------------------------------------------------------------------------

/// The project kinds accepted in `build.kind`.
pub open spec fn is_valid_kind(k: Seq<char>) -> bool {
    ||| k == "bin"@
    ||| k == "staticlib"@
    ||| k == "sharedlib"@
    ||| k == "efi"@
    ||| k == "elf"@
    ||| k == "none"@
    ||| k == "custom"@
    ||| k == "flat-bin"@
}

/// Whether `k` is one of the accepted project kinds.
pub fn is_valid_kind_exec(k: &str) -> (r: bool)
    ensures
        r == is_valid_kind(k@),
{
    str_eq(k, "bin") || str_eq(k, "staticlib") || str_eq(k, "sharedlib") || str_eq(k, "efi") || str_eq(k, "elf")
        || str_eq(k, "none") || str_eq(k, "custom") || str_eq(k, "flat-bin")
}

/// `[archive]`: a disk image assembled after the build.
#[derive(Debug)]
pub struct ArchiveConfig {
    pub output: String,
    pub format: String,
    pub size: Option<String>,
    pub offset: Option<String>,
    pub label: Option<String>,
    pub bootsector: Option<String>,
    pub layout: Vec<ArchiveLayout>,
}

/// One file copied into the archive image.
#[derive(Debug)]
pub struct ArchiveLayout {
    pub from: String,
    pub to: String,
}

/// `[package]`.
#[derive(Debug)]
pub struct PackageConfig {
    pub name: String,
    pub version: String,
    /// `type`: `lib`, `app` or `none`.
    pub pkg_type: Option<String>,
}

/// `build.language`: one language or several.
#[derive(Debug)]
pub enum LanguageConfig {
    One(String),
    Many(Vec<String>),
}

/// The language names of a `build.language` setting.
pub open spec fn language_values(l: LanguageConfig) -> Seq<Seq<char>> {
    match l {
        LanguageConfig::One(s) => seq![s@],
        LanguageConfig::Many(v) => views(v@),
    }
}

impl LanguageConfig {
    /// The language names, in order.
    pub fn values(&self) -> (r: Vec<&str>)
        ensures
            crate::config::str_views(r@) == language_values(*self),
    {
        match self {
            LanguageConfig::One(value) => {
                let r = vec![value.as_str()];
                assert(crate::config::str_views(r@) =~= seq![value@]);
                r
            },
            LanguageConfig::Many(values) => {
                let mut r: Vec<&str> = Vec::new();
                let mut i: usize = 0;
                while i < values.len()
                    invariant
                        i <= values@.len(),
                        crate::config::str_views(r@) == views(values@).take(i as int),
                    decreases values.len() - i,
                {
                    let ghost before = r@;
                    let item = values[i].as_str();
                    r.push(item);
                    assert(crate::config::str_views(r@) =~= crate::config::str_views(before).push(item@));
                    assert(views(values@).take(i + 1) =~= views(values@).take(i as int).push(values@[i as int]@));
                    i = i + 1;
                }
                assert(views(values@).take(values@.len() as int) =~= views(values@));
                r
            },
        }
    }
}

/// `[build]`.
#[derive(Debug)]
pub struct BuildConfig {
    pub language: LanguageConfig,
    pub standard: Option<String>,
    pub cxx_standard: Option<String>,
    pub compiler: String,
    pub kind: Option<String>,
    pub target: Option<String>,
    pub out_dir: Option<String>,
    pub platform: Option<String>,
    pub cflags: Vec<String>,
    pub ldflags: Vec<String>,
    pub exclude: Vec<String>,
    /// `include`: extra source globs.
    pub includes: Vec<String>,
    pub roots: Vec<String>,
    pub clean: Vec<String>,
    pub src_disable: Option<bool>,
    pub workspace_only: bool,
    pub qt: Option<bool>,
}

/// A dependency: a version requirement or a table of source settings.
#[derive(Debug)]
pub enum DependencyConfig {
    Version(String),
    Table(Vec<(String, TomlValue)>),
}

/// `[toolchain]`: explicit tool executables.
#[derive(Debug)]
pub struct ToolchainConfig {
    pub cc: Option<String>,
    pub cxx: Option<String>,
    /// `as`.
    pub assembler: Option<String>,
    pub ar: Option<String>,
    pub ld: Option<String>,
}

/// `[workspace.<name>]`.
#[derive(Debug)]
pub struct WorkspaceMemberConfig {
    pub path: String,
    pub deps: Vec<String>,
    pub main: Option<bool>,
}

/// The typed view of a manifest. Maps are kept as entries in key order.
#[derive(Debug)]
pub struct DcrConfig {
    pub package: Option<PackageConfig>,
    pub build: Option<BuildConfig>,
    pub dependencies: Vec<(String, DependencyConfig)>,
    pub toolchain: Option<ToolchainConfig>,
    pub workspace: Vec<(String, WorkspaceMemberConfig)>,
    pub archive: Option<ArchiveConfig>,
}

/// A workspace-only manifest: `build.workspace_only` with members listed.
pub open spec fn is_workspace_only_spec(typed: DcrConfig) -> bool {
    match typed.build {
        Some(b) => b.workspace_only && typed.workspace@.len() > 0,
        None => false,
    }
}

/// A manifest: where it lives, its raw value and its typed sections.
pub struct Config {
    path: String,
    data: TomlValue,
    typed: DcrConfig,
}

/// What setting `key` to `value` (with `typed` read from the edited text) does:
/// the raw value gets `set_path_spec` of it and the typed sections become
/// `typed` when that succeeds and the rules hold; otherwise the error is
/// returned and nothing changes. The path never changes.
pub open spec fn set_outcome(
    before: Config,
    after: Config,
    r: Result<(), ConfigError>,
    key: Seq<char>,
    value: Toml,
    typed: DcrConfig,
) -> bool {
    &&& after.path_spec() == before.path_spec()
    &&& match set_path_spec(before.data_model(), split_dots(key), value) {
        Err(e) => r is Err && is_invalid(r->Err_0, e) && after.data_model() == before.data_model()
            && after.typed_spec() == before.typed_spec(),
        Ok(v) => match crate::validation::validate_spec(v, typed) {
            Ok(_) => r is Ok && after.data_model() == v && after.typed_spec() == typed,
            Err(m) => r is Err && is_invalid(r->Err_0, m) && after.data_model() == before.data_model()
                && after.typed_spec() == before.typed_spec(),
        },
    }
}

impl Config {
    /// The raw value.
    pub closed spec fn data_model(&self) -> Toml {
        self.data.model()
    }

    /// The typed sections.
    pub closed spec fn typed_spec(&self) -> DcrConfig {
        self.typed
    }

    /// The file the manifest was read from.
    pub closed spec fn path_spec(&self) -> Seq<char> {
        self.path@
    }

    /// Accepts a manifest read from `path`: its raw value and the typed
    /// sections read from that value. It is refused when it breaks a rule.
    pub fn from_parts(path: String, data: TomlValue, typed: DcrConfig) -> (r: Result<Config, ConfigError>)
        ensures
            match crate::validation::validate_spec(data.model(), typed) {
                Ok(_) => r is Ok && r->Ok_0.data_model() == data.model() && r->Ok_0.typed_spec() == typed
                    && r->Ok_0.path_spec() == path@,
                Err(m) => r is Err && is_invalid(r->Err_0, m),
            },
    {
        let cfg = Config { path, data, typed };
        match cfg.validate() {
            Ok(()) => Ok(cfg),
            Err(e) => Err(e),
        }
    }

    /// The file the manifest was read from.
    pub fn path(&self) -> (r: &str)
        ensures
            r@ == self.path_spec(),
    {
        self.path.as_str()
    }

    /// The raw value.
    pub fn data(&self) -> (r: &TomlValue)
        ensures
            r.model() == self.data_model(),
    {
        &self.data
    }

    /// The typed sections.
    pub fn typed(&self) -> (r: &DcrConfig)
        ensures
            *r == self.typed_spec(),
    {
        &self.typed
    }

    /// `[package]`, if present.
    pub fn package(&self) -> (r: Option<&PackageConfig>)
        ensures
            r == match self.typed_spec().package {
                Some(p) => Some(&p),
                None => None::<&PackageConfig>,
            },
    {
        match &self.typed.package {
            Some(p) => Some(p),
            None => None,
        }
    }

    /// `[build]`, if present.
    pub fn build_config(&self) -> (r: Option<&BuildConfig>)
        ensures
            r == match self.typed_spec().build {
                Some(b) => Some(&b),
                None => None::<&BuildConfig>,
            },
    {
        match &self.typed.build {
            Some(b) => Some(b),
            None => None,
        }
    }

    /// Whether the manifest only lists workspace members.
    pub fn is_workspace_only(&self) -> (r: bool)
        ensures
            r == is_workspace_only_spec(self.typed_spec()),
    {
        match &self.typed.build {
            Some(b) => b.workspace_only && self.typed.workspace.len() > 0,
            None => false,
        }
    }

    /// The raw value at a dotted key such as `build.language`.
    pub fn get(&self, key: &str) -> (r: Option<&TomlValue>)
        ensures
            match r {
                Some(x) => get_path_spec(self.data_model(), split_dots(key@)) == Some(x.model()),
                None => get_path_spec(self.data_model(), split_dots(key@)) is None,
            },
    {
        let parts = split_key(key);
        get_path(&self.data, parts.as_slice())
    }

    /// Whether the manifest follows the rules.
    pub fn check(&self) -> (r: bool)
        ensures
            r == crate::validation::validate_spec(self.data_model(), self.typed_spec()) is Ok,
    {
        self.validate().is_ok()
    }

    /// Checks the manifest against the rules; the first rule broken is reported.
    pub fn validate(&self) -> (r: Result<(), ConfigError>)
        ensures
            crate::validation::matches_check(r, crate::validation::validate_spec(self.data_model(), self.typed_spec())),
    {
        crate::validation::validate(&self.data, &self.typed)
    }

    /// Writes `value` at the dotted key, with `typed` as the typed sections read
    /// from the edited text, and checks the result against the rules. When
    /// the key cannot be set or a rule is broken, the error is returned and the
    /// manifest is left as it was.
    pub fn set_value(&mut self, key: &str, value: TomlValue, typed: DcrConfig) -> (r: Result<(), ConfigError>)
        ensures
            set_outcome(*old(self), *final(self), r, key@, value.model(), typed),
    {
        let old_data = self.data.deep_clone();
        match self.set_raw(key, value) {
            Err(e) => return Err(e),
            Ok(()) => {},
        }
        let mut t = typed;
        core::mem::swap(&mut self.typed, &mut t);
        match self.validate() {
            Ok(()) => Ok(()),
            Err(e) => {
                self.data = old_data;
                core::mem::swap(&mut self.typed, &mut t);
                Err(e)
            },
        }
    }

    /// The same as [`Config::set_value`], for a new key.
    pub fn add(&mut self, key: &str, value: TomlValue, typed: DcrConfig) -> (r: Result<(), ConfigError>)
        ensures
            set_outcome(*old(self), *final(self), r, key@, value.model(), typed),
    {
        self.set_value(key, value, typed)
    }

    /// The same as [`Config::set_value`], for an existing key.
    pub fn edit(&mut self, key: &str, value: TomlValue, typed: DcrConfig) -> (r: Result<(), ConfigError>)
        ensures
            set_outcome(*old(self), *final(self), r, key@, value.model(), typed),
    {
        self.set_value(key, value, typed)
    }

    /// Writes `value` at the dotted key in the raw value (the typed sections
    /// are not touched). On an error the raw value is unchanged.
    pub fn set_raw(&mut self, key: &str, value: TomlValue) -> (r: Result<(), ConfigError>)
        ensures
            match set_path_spec(old(self).data_model(), split_dots(key@), value.model()) {
                Ok(v) => r is Ok && final(self).data_model() == v,
                Err(e) => r is Err && is_invalid(r->Err_0, e) && final(self).data_model() == old(self).data_model(),
            },
            final(self).typed_spec() == old(self).typed_spec(),
            final(self).path_spec() == old(self).path_spec(),
    {
        let parts = split_key(key);
        set_path(&mut self.data, parts.as_slice(), value)
    }

    /// Replaces the raw value and the typed sections together.
    pub fn replace_parts(&mut self, data: TomlValue, typed: DcrConfig)
        ensures
            final(self).data_model() == data.model(),
            final(self).typed_spec() == typed,
            final(self).path_spec() == old(self).path_spec(),
    {
        self.data = data;
        self.typed = typed;
    }
}


// ---------------------------------------------------------------------------
// Inheriting build settings from a workspace root
// ---------------------------------------------------------------------------

/// The `[build]` fields a member may inherit from its workspace root.
pub open spec fn inherited_fields() -> Seq<Seq<char>> {
    seq![
        "language"@,
        "standard"@,
        "cxx_standard"@,
        "compiler"@,
        "kind"@,
        "target"@,
        "platform"@,
        "cflags"@,
        "ldflags"@,
        "exclude"@,
        "include"@,
        "roots"@,
        "clean"@,
        "src_disable"@,
    ]
}

/// The `[build]` table of a raw value, if it has one.
pub open spec fn build_table(data: Toml) -> Option<Seq<(Seq<char>, Toml)>> {
    match data {
        Toml::Tab(root) => match tab_get(root, "build"@) {
            Some(Toml::Tab(b)) => Some(b),
            _ => None,
        },
        _ => None,
    }
}

/// A member's own value counts as unset when it is absent, a blank string or
/// an empty array; the parent's value is then offered for it.
pub open spec fn is_unset(own: Option<Toml>) -> bool {
    match own {
        None => true,
        Some(Toml::Str(s)) => crate::text::trim(s).len() == 0,
        Some(Toml::Arr(a)) => a.len() == 0,
        Some(_) => false,
    }
}

/// The parent's values offered to the member, in field order.
pub open spec fn offered(pb: Seq<(Seq<char>, Toml)>, sb: Seq<(Seq<char>, Toml)>, fields: Seq<Seq<char>>) -> Seq<
    (Seq<char>, Toml),
>
    decreases fields.len(),
{
    if fields.len() == 0 {
        Seq::empty()
    } else {
        let rest = offered(pb, sb, fields.drop_first());
        match tab_get(pb, fields[0]) {
            Some(v) => if is_unset(tab_get(sb, fields[0])) {
                seq![(fields[0], v)] + rest
            } else {
                rest
            },
            None => rest,
        }
    }
}

/// Writes each offered entry into the table (the offered fields are unset there).
pub open spec fn fill_offered(b: Seq<(Seq<char>, Toml)>, changes: Seq<(Seq<char>, Toml)>) -> Seq<(Seq<char>, Toml)>
    decreases changes.len(),
{
    if changes.len() == 0 {
        b
    } else {
        fill_offered(tab_insert(b, changes[0].0, changes[0].1), changes.drop_first())
    }
}

/// The member's raw value after inheriting: nothing changes unless something
/// is offered; then a value that is not a table becomes `{ build = {} }`, a
/// missing `[build]` is created, and the offered entries are written over the
/// fields the member's `[build]` table leaves unset.
pub open spec fn merge_spec(data: Toml, parent: Toml) -> Toml {
    let changes = match build_table(parent) {
        Some(pb) => offered(
            pb,
            match build_table(data) {
                Some(sb) => sb,
                None => Seq::empty(),
            },
            inherited_fields(),
        ),
        None => Seq::empty(),
    };
    if changes.len() == 0 {
        data
    } else {
        let root = match data {
            Toml::Tab(r) => r,
            _ => seq![("build"@, Toml::Tab(Seq::empty()))],
        };
        let root2 = if tab_get(root, "build"@) is None {
            tab_insert(root, "build"@, Toml::Tab(Seq::empty()))
        } else {
            root
        };
        match tab_get(root2, "build"@) {
            Some(Toml::Tab(b)) => Toml::Tab(tab_insert(root2, "build"@, Toml::Tab(fill_offered(b, changes)))),
            _ => Toml::Tab(root2),
        }
    }
}

/// After writing the offered entries, a key holds the value its entries carry
/// (all entries for a key carry the same value), or its old value when none is
/// offered.
proof fn lemma_fill_get(b: Seq<(Seq<char>, Toml)>, changes: Seq<(Seq<char>, Toml)>, k: Seq<char>, v: Toml)
    requires
        forall|j: int| 0 <= j < changes.len() && (#[trigger] changes[j]).0 == k ==> changes[j].1 == v,
    ensures
        tab_get(fill_offered(b, changes), k) == (if exists|j: int| 0 <= j < changes.len() && (#[trigger] changes[j]).0 == k {
            Some(v)
        } else {
            tab_get(b, k)
        }),
    decreases changes.len(),
{
    if changes.len() > 0 {
        let c = changes[0];
        let rest = changes.drop_first();
        assert forall|j: int| 0 <= j < rest.len() && (#[trigger] rest[j]).0 == k implies rest[j].1 == v by {
            assert(rest[j] == changes[j + 1]);
        }
        lemma_fill_get(tab_insert(b, c.0, c.1), rest, k, v);
        let in_rest = exists|j: int| 0 <= j < rest.len() && (#[trigger] rest[j]).0 == k;
        let in_all = exists|j: int| 0 <= j < changes.len() && (#[trigger] changes[j]).0 == k;
        if in_rest {
            let j = choose|j: int| 0 <= j < rest.len() && (#[trigger] rest[j]).0 == k;
            assert(changes[j + 1] == rest[j]);
            assert(in_all);
        }
        if c.0 == k {
            lemma_tab_insert_get(b, k, c.1);
            assert(changes[0].0 == k);
            assert(in_all);
        } else {
            lemma_tab_insert_other(b, c.0, c.1, k);
            if in_all {
                let j = choose|j: int| 0 <= j < changes.len() && (#[trigger] changes[j]).0 == k;
                assert(j != 0);
                assert(rest[j - 1] == changes[j]);
                assert(in_rest);
            }
        }
    }
}

/// The value offered for `k`: the parent's, when `k` is one of the fields,
/// the parent has it and the member's own value is unset.
pub open spec fn offered_value(pb: Seq<(Seq<char>, Toml)>, sb: Seq<(Seq<char>, Toml)>, fields: Seq<Seq<char>>, k: Seq<char>) -> Option<Toml> {
    if fields.contains(k) && is_unset(tab_get(sb, k)) {
        tab_get(pb, k)
    } else {
        None
    }
}

/// Every offered entry for `k` carries the parent's value, and there is one
/// exactly when a value is offered for `k`.
proof fn lemma_offered_keys(pb: Seq<(Seq<char>, Toml)>, sb: Seq<(Seq<char>, Toml)>, fields: Seq<Seq<char>>, k: Seq<char>)
    ensures
        forall|j: int|
            0 <= j < offered(pb, sb, fields).len() && (#[trigger] offered(pb, sb, fields)[j]).0 == k ==> tab_get(pb, k)
                == Some(offered(pb, sb, fields)[j].1),
        (exists|j: int| 0 <= j < offered(pb, sb, fields).len() && (#[trigger] offered(pb, sb, fields)[j]).0 == k)
            <==> offered_value(pb, sb, fields, k) is Some,
    decreases fields.len(),
{
    let o = offered(pb, sb, fields);
    if fields.len() > 0 {
        lemma_offered_keys(pb, sb, fields.drop_first(), k);
        let rest = offered(pb, sb, fields.drop_first());
        assert(fields.contains(k) <==> (fields[0] == k || fields.drop_first().contains(k))) by {
            if fields.contains(k) && fields[0] != k {
                let i = choose|i: int| 0 <= i < fields.len() && fields[i] == k;
                assert(fields.drop_first()[i - 1] == k);
            }
            if fields.drop_first().contains(k) {
                let i = choose|i: int| 0 <= i < fields.drop_first().len() && fields.drop_first()[i] == k;
                assert(fields[i + 1] == k);
            }
        }
        match tab_get(pb, fields[0]) {
            Some(v) => if is_unset(tab_get(sb, fields[0])) {
                assert(o == seq![(fields[0], v)] + rest);
                assert forall|j: int| 0 <= j < o.len() && (#[trigger] o[j]).0 == k implies tab_get(pb, k) == Some(o[j].1) by {
                    if j > 0 {
                        assert(o[j] == rest[j - 1]);
                    }
                }
                if exists|j: int| 0 <= j < rest.len() && (#[trigger] rest[j]).0 == k {
                    let j = choose|j: int| 0 <= j < rest.len() && (#[trigger] rest[j]).0 == k;
                    assert(o[j + 1] == rest[j]);
                }
                if exists|j: int| 0 <= j < o.len() && (#[trigger] o[j]).0 == k {
                    let j = choose|j: int| 0 <= j < o.len() && (#[trigger] o[j]).0 == k;
                    if j > 0 {
                        assert(o[j] == rest[j - 1]);
                    }
                }
                if fields[0] == k {
                    assert(o[0].0 == k);
                }
            } else {
                assert(o == rest);
            },
            None => {
                assert(o == rest);
            },
        }
    } else {
        assert(!fields.contains(k));
    }
}

/// The member's own `[build]` table, or none.
pub open spec fn own_build(data: Toml) -> Seq<(Seq<char>, Toml)> {
    match build_table(data) {
        Some(sb) => sb,
        None => Seq::empty(),
    }
}

/// Inheriting from the workspace root never changes a `[build]` field the
/// member sets itself (to anything but a blank string or an empty array), and
/// gives each inheritable field the member leaves unset (absent, blank or
/// empty) the root's value. (A member whose `build` entry is not a table gets
/// nothing.)
pub proof fn lemma_merge_keeps_own_and_fills(data: Toml, parent: Toml, k: Seq<char>)
    requires
        build_table(data) is Some || !(data is Tab) || tab_get(data->Tab_0, "build"@) is None,
    ensures
        !is_unset(tab_get(own_build(data), k)) ==> tab_get(own_build(merge_spec(data, parent)), k) == tab_get(
            own_build(data),
            k,
        ),
        is_unset(tab_get(own_build(data), k)) && inherited_fields().contains(k) && build_table(parent) is Some
            && tab_get(build_table(parent)->Some_0, k) is Some ==> tab_get(own_build(merge_spec(data, parent)), k)
            == tab_get(build_table(parent)->Some_0, k),
{
    let sb = own_build(data);
    let changes = match build_table(parent) {
        Some(pb) => offered(pb, sb, inherited_fields()),
        None => Seq::empty(),
    };
    reveal_strlit("build");
    let pv = match build_table(parent) {
        Some(pb) => match tab_get(pb, k) {
            Some(v) => v,
            None => Toml::Bool(false),
        },
        None => Toml::Bool(false),
    };
    if let Some(pb) = build_table(parent) {
        lemma_offered_keys(pb, sb, inherited_fields(), k);
    }
    if changes.len() > 0 {
        let root = match data {
            Toml::Tab(r) => r,
            _ => seq![("build"@, Toml::Tab(Seq::empty()))],
        };
        if !(data is Tab) {
            assert(root[0].0 == "build"@);
            assert(tab_get(root, "build"@) == Some(Toml::Tab(Seq::<(Seq<char>, Toml)>::empty())));
        }
        let root2 = if tab_get(root, "build"@) is None {
            tab_insert(root, "build"@, Toml::Tab(Seq::empty()))
        } else {
            root
        };
        lemma_tab_insert_get(root, "build"@, Toml::Tab(Seq::empty()));
        assert(tab_get(root2, "build"@) == Some(Toml::Tab(sb)));
        lemma_tab_insert_get(root2, "build"@, Toml::Tab(fill_offered(sb, changes)));
        assert(own_build(merge_spec(data, parent)) == fill_offered(sb, changes));
        lemma_fill_get(sb, changes, k, pv);
    } else if is_unset(tab_get(sb, k)) && inherited_fields().contains(k) && build_table(parent) is Some && tab_get(
        build_table(parent)->Some_0,
        k,
    ) is Some {
        assert(offered_value(build_table(parent)->Some_0, sb, inherited_fields(), k) is Some);
        let j = choose|j: int| 0 <= j < changes.len() && (#[trigger] changes[j]).0 == k;
        assert(false);
    }
}

/// Whether the parent offers anything to the member.
pub open spec fn merge_offers(data: Toml, parent: Toml) -> bool {
    match build_table(parent) {
        Some(pb) => offered(
            pb,
            match build_table(data) {
                Some(sb) => sb,
                None => Seq::empty(),
            },
            inherited_fields(),
        ).len() > 0,
        None => false,
    }
}

fn build_table_exec(data: &TomlValue) -> (r: Option<&Vec<(String, TomlValue)>>)
    ensures
        match r {
            Some(b) => build_table(data.model()) == Some(model_tab(b@)),
            None => build_table(data.model()) is None,
        },
{
    proof {
        reveal_strlit("build");
    }
    match data.as_table() {
        Some(root) => match crate::value::table_get(root, "build") {
            Some(b) => b.as_table(),
            None => None,
        },
        None => None,
    }
}

fn offered_exec(pb: &Vec<(String, TomlValue)>, sb: Option<&Vec<(String, TomlValue)>>) -> (r: Vec<(String, TomlValue)>)
    ensures
        model_tab(r@) == offered(
            model_tab(pb@),
            match sb {
                Some(t) => model_tab(t@),
                None => Seq::empty(),
            },
            inherited_fields(),
        ),
{
    let fields: [&str; 14] = [
        "language",
        "standard",
        "cxx_standard",
        "compiler",
        "kind",
        "target",
        "platform",
        "cflags",
        "ldflags",
        "exclude",
        "include",
        "roots",
        "clean",
        "src_disable",
    ];
    let ghost f = inherited_fields();
    let ghost sm = match sb {
        Some(t) => model_tab(t@),
        None => Seq::empty(),
    };
    proof {
        reveal_strlit("language");
        reveal_strlit("standard");
        reveal_strlit("cxx_standard");
        reveal_strlit("compiler");
        reveal_strlit("kind");
        reveal_strlit("target");
        reveal_strlit("platform");
        reveal_strlit("cflags");
        reveal_strlit("ldflags");
        reveal_strlit("exclude");
        reveal_strlit("include");
        reveal_strlit("roots");
        reveal_strlit("clean");
        reveal_strlit("src_disable");
    }
    let mut out: Vec<(String, TomlValue)> = Vec::new();
    let mut i: usize = 0;
    assert(f.skip(0) =~= f);
    assert(model_tab(out@) =~= Seq::<(Seq<char>, Toml)>::empty());
    assert(model_tab(out@) + offered(model_tab(pb@), sm, f) =~= offered(model_tab(pb@), sm, f));
    while i < 14
        invariant
            f == inherited_fields(),
            forall|j: int| 0 <= j < 14 ==> #[trigger] fields@[j]@ == f[j],
            i <= 14,
            sm == match sb {
                Some(t) => model_tab(t@),
                None => Seq::empty(),
            },
            offered(model_tab(pb@), sm, f) == model_tab(out@) + offered(model_tab(pb@), sm, f.skip(i as int)),
        decreases 14 - i,
    {
        let ghost rest = f.skip(i as int);
        assert(rest.drop_first() =~= f.skip(i + 1));
        assert(rest[0] == f[i as int]);
        let field = fields[i];
        match crate::value::table_get(pb, field) {
            Some(v) => {
                let own = match sb {
                    Some(t) => crate::value::table_get(t, field),
                    None => None,
                };
                let inherit = match own {
                    None => true,
                    Some(TomlValue::String(s)) => crate::validation::is_blank(s.as_str()),
                    Some(TomlValue::Array(a)) => a.len() == 0,
                    Some(_) => false,
                };
                if inherit {
                    let ghost before = out@;
                    let c = v.deep_clone();
                    out.push((String::from_str(field), c));
                    assert(model_tab(out@) =~= model_tab(before).push((field@, v.model())));
                    assert(model_tab(out@) + offered(model_tab(pb@), sm, f.skip(i + 1)) =~= model_tab(before) + (seq![
                        (field@, v.model()),
                    ] + offered(model_tab(pb@), sm, f.skip(i + 1))));
                }
            },
            None => {},
        }
        i = i + 1;
    }
    assert(f.skip(14) =~= Seq::<Seq<char>>::empty());
    assert(model_tab(out@) + Seq::<(Seq<char>, Toml)>::empty() =~= model_tab(out@));
    out
}

/// Fills the member's unset `[build]` fields (absent, blank or empty) from the
/// workspace root's `[build]`. Returns whether anything was offered (the typed sections are then
/// to be read again from the raw value).
pub fn merge_parent_data(data: &mut TomlValue, parent: &TomlValue) -> (r: bool)
    ensures
        r == merge_offers(old(data).model(), parent.model()),
        final(data).model() == merge_spec(old(data).model(), parent.model()),
{
    let pb = match build_table_exec(parent) {
        Some(pb) => pb,
        None => return false,
    };
    let changes = offered_exec(pb, build_table_exec(data));
    if changes.len() == 0 {
        return false;
    }
    proof {
        reveal_strlit("build");
    }
    if data.as_table().is_none() {
        let inner: Vec<(String, TomlValue)> = Vec::new();
        proof {
            lemma_table_model(inner);
            assert(model_tab(inner@) =~= Seq::<(Seq<char>, Toml)>::empty());
        }
        let mut root: Vec<(String, TomlValue)> = Vec::new();
        root.push((String::from_str("build"), TomlValue::Table(inner)));
        proof {
            lemma_table_model(root);
            assert(model_tab(root@) =~= seq![("build"@, Toml::Tab(Seq::empty()))]);
        }
        *data = TomlValue::Table(root);
    }
    match data {
        TomlValue::Table(root) => {
            proof {
                lemma_table_model(*root);
            }
            if crate::value::table_get(root, "build").is_none() {
                let inner: Vec<(String, TomlValue)> = Vec::new();
                proof {
                    lemma_table_model(inner);
                    assert(model_tab(inner@) =~= Seq::<(Seq<char>, Toml)>::empty());
                }
                table_insert(root, String::from_str("build"), TomlValue::Table(inner));
            }
            let copy = match crate::value::table_get(root, "build") {
                Some(b) => match b.as_table() {
                    Some(bt) => Some(crate::value::clone_table(bt)),
                    None => None,
                },
                None => None,
            };
            if let Some(mut b2) = copy {
                fill_offered_exec(&mut b2, &changes);
                proof {
                    lemma_table_model(b2);
                }
                table_insert(root, String::from_str("build"), TomlValue::Table(b2));
            }
            proof {
                lemma_table_model(*root);
            }
        },
        _ => {},
    }
    true
}

fn fill_offered_exec(b: &mut Vec<(String, TomlValue)>, changes: &Vec<(String, TomlValue)>)
    ensures
        model_tab(final(b)@) == fill_offered(model_tab(old(b)@), model_tab(changes@)),
{
    let ghost cm = model_tab(changes@);
    let ghost target = fill_offered(model_tab(b@), cm);
    let mut i: usize = 0;
    assert(cm.skip(0) =~= cm);
    while i < changes.len()
        invariant
            cm == model_tab(changes@),
            i <= changes@.len(),
            target == fill_offered(model_tab(b@), cm.skip(i as int)),
        decreases changes.len() - i,
    {
        assert(cm.skip(i as int).drop_first() =~= cm.skip(i + 1));
        assert(cm.skip(i as int)[0] == (changes@[i as int].0@, changes@[i as int].1.model()));
        let k = changes[i].0.clone();
        let v = changes[i].1.deep_clone();
        table_insert(b, k, v);
        i = i + 1;
    }
    assert(cm.skip(changes@.len() as int) =~= Seq::<(Seq<char>, Toml)>::empty());
}

impl Config {
    /// Fills the `[build]` fields this manifest leaves unset (absent, blank or
    /// empty) from its workspace root's manifest; returns whether anything was offered, in which case
    /// the typed sections are to be read again (see [`Config::replace_typed`]).
    pub fn merge_parent(&mut self, parent: &Config) -> (r: bool)
        ensures
            r == merge_offers(old(self).data_model(), parent.data_model()),
            final(self).data_model() == merge_spec(old(self).data_model(), parent.data_model()),
            final(self).typed_spec() == old(self).typed_spec(),
            final(self).path_spec() == old(self).path_spec(),
    {
        merge_parent_data(&mut self.data, &parent.data)
    }

    /// Replaces the typed sections (after they were read again from the raw value).
    pub fn replace_typed(&mut self, typed: DcrConfig)
        ensures
            final(self).typed_spec() == typed,
            final(self).data_model() == old(self).data_model(),
            final(self).path_spec() == old(self).path_spec(),
    {
        self.typed = typed;
    }
}

} // verus!
