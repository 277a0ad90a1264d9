//! Editing the text of `dcr.toml` in place, keeping its comments and layout.
//! The walk down the key path, its errors and the order of the written
//! table's keys are decided here; parsing, looking up, inserting and printing
//! are `toml_edit`'s, each through a wrapper whose result is named.
use vstd::prelude::*;

use crate::build_config::{is_invalid, split_key, ConfigError};
use crate::manifest::{entry_keys, ordered_keys_ok, ordered_table_keys};
use crate::text::views;
use crate::value::{lemma_array_model, lemma_table_model, model_arr, model_tab, tab_get, table_get, Toml, TomlValue};

verus! {

#[verifier::external_type_specification]
#[verifier::external_body]
pub struct ExDocumentMut(toml_edit::DocumentMut);

#[verifier::external_type_specification]
#[verifier::external_body]
pub struct ExTable(toml_edit::Table);

#[verifier::external_type_specification]
#[verifier::external_body]
pub struct ExEditValue(toml_edit::Value);

// ---------------------------------------------------------------------------
// Floats
// ---------------------------------------------------------------------------

/// A float sits at the position `p` of `v` (item or entry indices, one per
/// level of nesting).
pub open spec fn float_at(v: Toml, p: Seq<int>) -> bool
    decreases p.len(),
{
    if p.len() == 0 {
        v is Float
    } else {
        match v {
            Toml::Arr(a) => 0 <= p[0] < a.len() && float_at(a[p[0]], p.drop_first()),
            Toml::Tab(t) => 0 <= p[0] < t.len() && float_at(t[p[0]].1, p.drop_first()),
            _ => false,
        }
    }
}

/// The value holds no floating-point number anywhere.
pub open spec fn float_free(v: Toml) -> bool {
    !exists|p: Seq<int>| #[trigger] float_at(v, p)
}

proof fn lemma_arr_float_free(a: Seq<Toml>)
    ensures
        float_free(Toml::Arr(a)) <==> forall|i: int| 0 <= i < a.len() ==> float_free(#[trigger] a[i]),
{
    if exists|i: int| 0 <= i < a.len() && !float_free(#[trigger] a[i]) {
        let i = choose|i: int| 0 <= i < a.len() && !float_free(#[trigger] a[i]);
        let p = choose|p: Seq<int>| #[trigger] float_at(a[i], p);
        let q = seq![i] + p;
        assert(q.drop_first() =~= p);
        assert(float_at(Toml::Arr(a), q));
    } else if exists|q: Seq<int>| #[trigger] float_at(Toml::Arr(a), q) {
        let q = choose|q: Seq<int>| #[trigger] float_at(Toml::Arr(a), q);
        assert(q.len() > 0);
        assert(float_at(a[q[0]], q.drop_first()));
        assert(!float_free(a[q[0]]));
    }
}

proof fn lemma_tab_float_free(t: Seq<(Seq<char>, Toml)>)
    ensures
        float_free(Toml::Tab(t)) <==> forall|i: int| 0 <= i < t.len() ==> float_free(#[trigger] t[i].1),
{
    if exists|i: int| 0 <= i < t.len() && !float_free(#[trigger] t[i].1) {
        let i = choose|i: int| 0 <= i < t.len() && !float_free(#[trigger] t[i].1);
        let p = choose|p: Seq<int>| #[trigger] float_at(t[i].1, p);
        let q = seq![i] + p;
        assert(q.drop_first() =~= p);
        assert(float_at(Toml::Tab(t), q));
    } else if exists|q: Seq<int>| #[trigger] float_at(Toml::Tab(t), q) {
        let q = choose|q: Seq<int>| #[trigger] float_at(Toml::Tab(t), q);
        assert(q.len() > 0);
        assert(float_at(t[q[0]].1, q.drop_first()));
        assert(!float_free(t[q[0]].1));
    }
}

/// Whether a value holds a floating-point number anywhere.
pub fn contains_float(v: &TomlValue) -> (r: bool)
    ensures
        r == !float_free(v.model()),
    decreases v,
{
    match v {
        TomlValue::Float(_) => {
            assert(float_at(v.model(), Seq::<int>::empty()));
            true
        },
        TomlValue::Array(a) => {
            proof {
                lemma_array_model(*a);
                lemma_arr_float_free(model_arr(a@));
            }
            array_has_float(a)
        },
        TomlValue::Table(t) => {
            proof {
                lemma_table_model(*t);
                lemma_tab_float_free(model_tab(t@));
            }
            table_has_float(t)
        },
        _ => {
            assert forall|p: Seq<int>| !#[trigger] float_at(v.model(), p) by {}
            false
        },
    }
}

fn array_has_float(a: &Vec<TomlValue>) -> (r: bool)
    ensures
        r == !(forall|i: int| 0 <= i < a@.len() ==> float_free(#[trigger] model_arr(a@)[i])),
    decreases a@,
{
    let ghost m = model_arr(a@);
    let mut i: usize = 0;
    while i < a.len()
        invariant
            i <= a@.len(),
            m == model_arr(a@),
            forall|j: int| 0 <= j < i ==> float_free(#[trigger] m[j]),
        decreases a.len() - i,
    {
        proof {
            assert(decreases_to!(a@ => a@[i as int]));
        }
        assert(m[i as int] == a@[i as int].model());
        if contains_float(&a[i]) {
            return true;
        }
        i = i + 1;
    }
    false
}

fn table_has_float(t: &Vec<(String, TomlValue)>) -> (r: bool)
    ensures
        r == !(forall|i: int| 0 <= i < t@.len() ==> float_free(#[trigger] model_tab(t@)[i].1)),
    decreases t@,
{
    let ghost m = model_tab(t@);
    let mut i: usize = 0;
    while i < t.len()
        invariant
            i <= t@.len(),
            m == model_tab(t@),
            forall|j: int| 0 <= j < i ==> float_free(#[trigger] m[j].1),
        decreases t.len() - i,
    {
        proof {
            assert(decreases_to!(t@ => t@[i as int]));
            assert(decreases_to!(t@[i as int] => t@[i as int].1));
        }
        assert(m[i as int].1 == t@[i as int].1.model());
        if contains_float(&t[i].1) {
            return true;
        }
        i = i + 1;
    }
    false
}


// ---------------------------------------------------------------------------
// The order of a written table's keys
// ---------------------------------------------------------------------------

/// The entries of `t` for the keys `keys` that it has, in the order of `keys`.
pub open spec fn entries_in_order(keys: Seq<Seq<char>>, t: Seq<(Seq<char>, Toml)>) -> Seq<(Seq<char>, Toml)>
    decreases keys.len(),
{
    if keys.len() == 0 {
        Seq::empty()
    } else {
        let rest = entries_in_order(keys.drop_last(), t);
        match tab_get(t, keys.last()) {
            Some(x) => rest.push((keys.last(), x)),
            None => rest,
        }
    }
}

/// `o` is `v` written with a table's keys in dependency order (see
/// `ordered_keys_ok`); other values are written as they are.
pub open spec fn ordered_for_writing(v: Toml, o: Toml) -> bool {
    match v {
        Toml::Tab(t) => exists|keys: Seq<Seq<char>>|
            #![trigger entries_in_order(keys, t)]
            ordered_keys_ok(keys, t) && o == Toml::Tab(entries_in_order(keys, t)),
        _ => o == v,
    }
}

/// `v` with a table's keys put in dependency order.
pub fn order_for_writing(v: &TomlValue) -> (r: TomlValue)
    ensures
        ordered_for_writing(v.model(), r.model()),
{
    match v {
        TomlValue::Table(t) => {
            proof {
                lemma_table_model(*t);
            }
            let keys = ordered_table_keys(t);
            let ghost kv = views(keys@);
            let ghost m = model_tab(t@);
            let mut out: Vec<(String, TomlValue)> = Vec::new();
            let mut i: usize = 0;
            proof {
                lemma_table_model(out);
            }
            assert(model_tab(out@) =~= entries_in_order(kv.take(0), m));
            while i < keys.len()
                invariant
                    i <= keys@.len(),
                    kv == views(keys@),
                    m == model_tab(t@),
                    model_tab(out@) == entries_in_order(kv.take(i as int), m),
                decreases keys.len() - i,
            {
                assert(kv.take(i + 1).drop_last() =~= kv.take(i as int));
                assert(kv.take(i + 1).last() == keys@[i as int]@);
                match table_get(t, keys[i].as_str()) {
                    Some(x) => {
                        let ghost before = out@;
                        let c = x.deep_clone();
                        out.push((keys[i].clone(), c));
                        assert(model_tab(out@) =~= model_tab(before).push((keys@[i as int]@, x.model())));
                    },
                    None => {},
                }
                i = i + 1;
            }
            assert(kv.take(keys@.len() as int) =~= kv);
            proof {
                lemma_table_model(out);
                assert(v.model() == Toml::Tab(m));
                assert(ordered_keys_ok(kv, m));
                assert(TomlValue::Table(out).model() == Toml::Tab(entries_in_order(kv, m)));
                let o = TomlValue::Table(out).model();
                assert(ordered_keys_ok(kv, m) && o == Toml::Tab(entries_in_order(kv, m)));
                assert(exists|keys: Seq<Seq<char>>|
                    #![trigger entries_in_order(keys, m)]
                    ordered_keys_ok(keys, m) && o == Toml::Tab(entries_in_order(keys, m)));
                assert(v.model()->Tab_0 == m);
                assert(ordered_for_writing(v.model(), o));
            }
            TomlValue::Table(out)
        },
        _ => v.deep_clone(),
    }
}

// ---------------------------------------------------------------------------
// toml_edit, one call each
// ---------------------------------------------------------------------------

/// What `str::parse::<toml_edit::DocumentMut>` gives for a text: the
/// document, or the message of its error.
pub uninterp spec fn toml_edit_parse(text: Seq<char>) -> Result<toml_edit::DocumentMut, Seq<char>>;

/// `text.parse::<toml_edit::DocumentMut>()`, the error as its message.
#[verifier::external_body]
fn parse_document(text: &str) -> (r: Result<toml_edit::DocumentMut, String>)
    ensures
        match (r, toml_edit_parse(text@)) {
            (Ok(d), Ok(e)) => d == e,
            (Err(m), Err(e)) => m@ == e,
            _ => false,
        },
{
    text.parse::<toml_edit::DocumentMut>().map_err(|e| e.to_string())
}

/// `DocumentMut::as_table_mut`: the root table of a document.
pub uninterp spec fn doc_root(d: toml_edit::DocumentMut) -> toml_edit::Table;

/// The document once its root table has become `t`.
pub uninterp spec fn doc_with_root(d: toml_edit::DocumentMut, t: toml_edit::Table) -> toml_edit::DocumentMut;

/// `DocumentMut::as_table_mut`: the root table, borrowed for editing.
#[verifier::external_body]
fn root_table(d: &mut toml_edit::DocumentMut) -> (r: &mut toml_edit::Table)
    ensures
        *r == doc_root(*old(d)),
        *final(d) == doc_with_root(*old(d), *final(r)),
{
    d.as_table_mut()
}

/// `Table::contains_key`.
pub uninterp spec fn tbl_has(t: toml_edit::Table, k: Seq<char>) -> bool;

/// `Table::contains_key`.
#[verifier::external_body]
fn has_key(t: &toml_edit::Table, k: &str) -> (r: bool)
    ensures
        r == tbl_has(*t, k@),
{
    t.contains_key(k)
}

/// `Table::get_mut` then `Item::as_table_mut`: the entry `k` when it is a
/// (non-inline) table.
pub uninterp spec fn tbl_child(t: toml_edit::Table, k: Seq<char>) -> Option<toml_edit::Table>;

/// The table once its entry `k` (a table) has become `c`.
pub uninterp spec fn tbl_with_child(t: toml_edit::Table, k: Seq<char>, c: toml_edit::Table) -> toml_edit::Table;

/// `Table::get_mut(k)` then `Item::as_table_mut`.
#[verifier::external_body]
fn child_table<'a>(t: &'a mut toml_edit::Table, k: &str) -> (r: Option<&'a mut toml_edit::Table>)
    ensures
        match r {
            Some(c) => tbl_child(*old(t), k@) == Some(*c) && *final(t) == tbl_with_child(*old(t), k@, *final(c)),
            None => tbl_child(*old(t), k@) is None && *final(t) == *old(t),
        },
{
    t.get_mut(k).and_then(|i| i.as_table_mut())
}

/// `Table::insert(k, item)`, the item being an empty table (`None`) or a value.
pub uninterp spec fn tbl_insert(t: toml_edit::Table, k: Seq<char>, v: Option<toml_edit::Value>) -> toml_edit::Table;

/// `Table::insert` of `Item::Table(Table::new())` (`None`) or `Item::Value(v)`.
#[verifier::external_body]
fn insert_item(t: &mut toml_edit::Table, k: &str, v: Option<toml_edit::Value>)
    ensures
        *final(t) == tbl_insert(*old(t), k@, v),
{
    match v {
        None => t.insert(k, toml_edit::Item::Table(toml_edit::Table::new())),
        Some(x) => t.insert(k, toml_edit::Item::Value(x)),
    };
}

/// `DocumentMut`'s `Display`: the document's text.
pub uninterp spec fn doc_text(d: toml_edit::DocumentMut) -> Seq<char>;

/// `DocumentMut::to_string`.
#[verifier::external_body]
fn print_document(d: &toml_edit::DocumentMut) -> (r: String)
    ensures
        r@ == doc_text(*d),
{
    d.to_string()
}

/// The `toml_edit` value of a float-free value: `toml_edit::Value::from` for
/// each scalar, a datetime `toml_edit` does not read kept as a string,
/// arrays and inline tables item by item in their order.
pub uninterp spec fn edit_value_of(v: Toml) -> toml_edit::Value;

/// Converts a float-free value into `toml_edit::Value`, one for one.
#[verifier::external_body]
fn edit_value(v: &TomlValue) -> (r: toml_edit::Value)
    requires
        float_free(v.model()),
    ensures
        r == edit_value_of(v.model()),
{
    match v {
        TomlValue::String(s) => s.as_str().into(),
        TomlValue::Integer(i) => (*i).into(),
        TomlValue::Boolean(b) => (*b).into(),
        TomlValue::Datetime(s) => s.parse::<toml_edit::Datetime>().map_or(s.as_str().into(), Into::into),
        TomlValue::Array(a) => toml_edit::Value::Array(a.iter().map(edit_value).collect()),
        TomlValue::Table(t) => toml_edit::Value::InlineTable(t.iter().map(|(k, x)| (k.as_str(), edit_value(x))).collect()),
        TomlValue::Float(_) => toml_edit::Value::Array(toml_edit::Array::new()),
    }
}

// ---------------------------------------------------------------------------
// The walk
// ---------------------------------------------------------------------------

/// The error when a step of the key path is not a table.
pub open spec fn not_a_table(k: Seq<char>) -> Seq<char> {
    "'"@ + k + "' is not a table"@
}

/// Writing `v` at the non-empty key path `path` under table `t`: each key
/// but the last is entered, an empty table inserted first when it is
/// missing; a key whose entry is not a table is refused; the value is
/// inserted at the last key.
pub open spec fn walk_spec(t: toml_edit::Table, path: Seq<Seq<char>>, v: toml_edit::Value) -> Result<toml_edit::Table, Seq<char>>
    decreases path.len(),
{
    if path.len() <= 1 {
        Ok(tbl_insert(t, path[0], Some(v)))
    } else {
        let k = path[0];
        let t1 = if tbl_has(t, k) {
            t
        } else {
            tbl_insert(t, k, None)
        };
        match tbl_child(t1, k) {
            None => Err(not_a_table(k)),
            Some(c) => match walk_spec(c, path.drop_first(), v) {
                Ok(nc) => Ok(tbl_with_child(t1, k, nc)),
                Err(m) => Err(m),
            },
        }
    }
}

fn walk(t: &mut toml_edit::Table, path: &Vec<String>, i: usize, v: toml_edit::Value) -> (r: Result<(), ConfigError>)
    requires
        i < path@.len(),
    ensures
        match walk_spec(*old(t), views(path@).skip(i as int), v) {
            Ok(nt) => r is Ok && *final(t) == nt,
            Err(m) => r is Err && is_invalid(r->Err_0, m),
        },
    decreases path@.len() - i,
{
    let ghost p = views(path@).skip(i as int);
    assert(p[0] == path@[i as int]@);
    let k = path[i].as_str();
    if i == path.len() - 1 {
        insert_item(t, k, Some(v));
        return Ok(());
    }
    assert(p.drop_first() =~= views(path@).skip(i + 1));
    if !has_key(t, k) {
        insert_item(t, k, None);
    }
    match child_table(t, k) {
        None => Err(ConfigError::Invalid(crate::text::concat3("'", k, "' is not a table"))),
        Some(c) => walk(c, path, i + 1, v),
    }
}

/// The message of a value that cannot be written.
pub open spec fn float_message() -> Seq<char> {
    "floating-point values are not written into dcr.toml"@
}

/// The manifest text with `value` written at the dotted `key`: the text is
/// read by `toml_edit` (its error refused as `TomlEdit`), a value holding a
/// float is refused, an empty key path is refused, the walk of `walk_spec`
/// writes the value (a table with its keys in dependency order), and the
/// document is printed.
pub fn edit_text(text: &str, key: &str, value: &TomlValue) -> (r: Result<String, ConfigError>)
    ensures
        match toml_edit_parse(text@) {
            Err(m) => r is Err && r->Err_0 is TomlEdit && r->Err_0->TomlEdit_0@ == m,
            Ok(d) => exists|o: Toml|
                #![trigger ordered_for_writing(value.model(), o)]
                ordered_for_writing(value.model(), o) && if !float_free(o) {
                    r is Err && r->Err_0 is TomlSer && r->Err_0->TomlSer_0@ == float_message()
                } else {
                    match walk_spec(doc_root(d), crate::build_config::split_dots(key@), edit_value_of(o)) {
                        Ok(nt) => r is Ok && r->Ok_0@ == doc_text(doc_with_root(d, nt)),
                        Err(m) => r is Err && is_invalid(r->Err_0, m),
                    }
                },
        },
{
    let mut doc = match parse_document(text) {
        Ok(d) => d,
        Err(m) => return Err(ConfigError::TomlEdit(m)),
    };
    let ordered = order_for_writing(value);
    if contains_float(&ordered) {
        return Err(ConfigError::TomlSer(String::from_str("floating-point values are not written into dcr.toml")));
    }
    let path = split_key(key);
    if path.len() == 0 {
        return Err(ConfigError::Invalid(String::from_str("empty key")));
    }
    let ev = edit_value(&ordered);
    let ghost d0 = doc;
    let root = root_table(&mut doc);
    let res = walk(root, &path, 0, ev);
    assert(views(path@).skip(0) =~= views(path@));
    match res {
        Err(e) => Err(e),
        Ok(()) => Ok(print_document(&doc)),
    }
}

/// Checks that a manifest's text is a TOML document `toml_edit` can edit.
pub fn check_document(text: &str) -> (r: Result<(), ConfigError>)
    ensures
        match toml_edit_parse(text@) {
            Ok(_) => r is Ok,
            Err(m) => r is Err && r->Err_0 is TomlEdit && r->Err_0->TomlEdit_0@ == m,
        },
{
    match parse_document(text) {
        Ok(_) => Ok(()),
        Err(m) => Err(ConfigError::TomlEdit(m)),
    }
}

} // verus!
