//! TOML values as the configuration logic reads them.
use vstd::prelude::*;

use crate::text::chars_of;

verus! {

/// A TOML value. Tables keep their keys in ascending order, each once.
#[derive(Debug)]
pub enum TomlValue {
    String(String),
    Integer(i64),
    /// The bits of a 64-bit float.
    Float(u64),
    Boolean(bool),
    Datetime(String),
    Array(Vec<TomlValue>),
    Table(Vec<(String, TomlValue)>),
}

/// A TOML value as a mathematical object.
pub enum Toml {
    Str(Seq<char>),
    Int(int),
    Float(u64),
    Bool(bool),
    Datetime(Seq<char>),
    Arr(Seq<Toml>),
    Tab(Seq<(Seq<char>, Toml)>),
}

impl TomlValue {
    pub open spec fn model(self) -> Toml
        decreases self,
    {
        match self {
            TomlValue::String(s) => Toml::Str(s@),
            TomlValue::Integer(i) => Toml::Int(i as int),
            TomlValue::Float(f) => Toml::Float(f),
            TomlValue::Boolean(b) => Toml::Bool(b),
            TomlValue::Datetime(s) => Toml::Datetime(s@),
            TomlValue::Array(v) => Toml::Arr(
                Seq::new(
                    v@.len(),
                    |i: int|
                        if 0 <= i < v@.len() {
                            proof {
                                assert(decreases_to!(v => v@));
                                assert(decreases_to!(v@ => v@[i]));
                            }
                            v@[i].model()
                        } else {
                            Toml::Bool(false)
                        },
                ),
            ),
            TomlValue::Table(t) => Toml::Tab(
                Seq::new(
                    t@.len(),
                    |i: int|
                        if 0 <= i < t@.len() {
                            proof {
                                assert(decreases_to!(t => t@));
                                assert(decreases_to!(t@ => t@[i]));
                                assert(decreases_to!(t@[i] => t@[i].1));
                            }
                            (t@[i].0@, t@[i].1.model())
                        } else {
                            (Seq::empty(), Toml::Bool(false))
                        },
                ),
            ),
        }
    }
}


/// The model of a table's entries.
pub open spec fn model_tab(t: Seq<(String, TomlValue)>) -> Seq<(Seq<char>, Toml)> {
    t.map_values(|e: (String, TomlValue)| (e.0@, e.1.model()))
}

/// Strict lexicographic order on character sequences (by code point), the
/// order in which a TOML table's keys are kept.
pub open spec fn seq_lt(a: Seq<char>, b: Seq<char>) -> bool
    decreases a.len(),
{
    if b.len() == 0 {
        false
    } else if a.len() == 0 {
        true
    } else if a[0] < b[0] {
        true
    } else if a[0] > b[0] {
        false
    } else {
        seq_lt(a.drop_first(), b.drop_first())
    }
}

/// The keys of the entries are strictly ascending.
pub open spec fn keys_sorted(t: Seq<(Seq<char>, Toml)>) -> bool {
    forall|i: int, j: int| 0 <= i < j < t.len() ==> seq_lt(#[trigger] t[i].0, #[trigger] t[j].0)
}

/// Every table in the value has strictly ascending keys.
pub open spec fn wf(v: Toml) -> bool
    decreases v,
{
    match v {
        Toml::Arr(a) => forall|i: int| 0 <= i < a.len() ==> wf(#[trigger] a[i]),
        Toml::Tab(t) => keys_sorted(t) && forall|i: int| 0 <= i < t.len() ==> wf(#[trigger] t[i].1),
        _ => true,
    }
}

/// The value of the first entry with key `k`.
pub open spec fn tab_get(t: Seq<(Seq<char>, Toml)>, k: Seq<char>) -> Option<Toml>
    decreases t.len(),
{
    if t.len() == 0 {
        None
    } else if t[0].0 == k {
        Some(t[0].1)
    } else {
        tab_get(t.drop_first(), k)
    }
}

/// The table with `k` set to `x`: an entry with key `k` is replaced in place,
/// otherwise the entry is added before the first greater key.
pub open spec fn tab_insert(t: Seq<(Seq<char>, Toml)>, k: Seq<char>, x: Toml) -> Seq<(Seq<char>, Toml)>
    decreases t.len(),
{
    if t.len() == 0 {
        seq![(k, x)]
    } else if t[0].0 == k {
        seq![(k, x)] + t.drop_first()
    } else if seq_lt(k, t[0].0) {
        seq![(k, x)] + t
    } else {
        seq![t[0]] + tab_insert(t.drop_first(), k, x)
    }
}


/// The value at the slot where [`tab_insert`] would put `k`: the entry with key
/// `k` met before any greater key. In a table with ascending keys this is the
/// entry with key `k`.
pub open spec fn tab_find(t: Seq<(Seq<char>, Toml)>, k: Seq<char>) -> Option<Toml>
    decreases t.len(),
{
    if t.len() == 0 {
        None
    } else if t[0].0 == k {
        Some(t[0].1)
    } else if seq_lt(k, t[0].0) {
        None
    } else {
        tab_find(t.drop_first(), k)
    }
}

// ---------------------------------------------------------------------------
// Key order
// ---------------------------------------------------------------------------

/// No key is below itself.
pub proof fn lemma_seq_lt_irreflexive(a: Seq<char>)
    ensures
        !seq_lt(a, a),
    decreases a.len(),
{
    if a.len() > 0 {
        lemma_seq_lt_irreflexive(a.drop_first());
    }
}

/// The key order is transitive.
pub proof fn lemma_seq_lt_transitive(a: Seq<char>, b: Seq<char>, c: Seq<char>)
    requires
        seq_lt(a, b),
        seq_lt(b, c),
    ensures
        seq_lt(a, c),
    decreases a.len(),
{
    if a.len() > 0 && b.len() > 0 && c.len() > 0 && a[0] == b[0] && b[0] == c[0] {
        lemma_seq_lt_transitive(a.drop_first(), b.drop_first(), c.drop_first());
    }
}

/// Two different keys are ordered one way or the other.
pub proof fn lemma_seq_lt_total(a: Seq<char>, b: Seq<char>)
    requires
        a != b,
    ensures
        seq_lt(a, b) || seq_lt(b, a),
    decreases a.len(),
{
    if a.len() > 0 && b.len() > 0 && a[0] == b[0] {
        if a.drop_first() == b.drop_first() {
            assert(a =~= seq![a[0]] + a.drop_first());
            assert(b =~= seq![b[0]] + b.drop_first());
        }
        lemma_seq_lt_total(a.drop_first(), b.drop_first());
    } else if a.len() == 0 && b.len() == 0 {
        assert(a =~= b);
    }
}

/// `k` is below `b` and `b` below `c`, or ... : the asymmetric form used below.
pub proof fn lemma_seq_lt_asymmetric(a: Seq<char>, b: Seq<char>)
    requires
        seq_lt(a, b),
    ensures
        !seq_lt(b, a),
{
    if seq_lt(b, a) {
        lemma_seq_lt_transitive(a, b, a);
        lemma_seq_lt_irreflexive(a);
    }
}

// ---------------------------------------------------------------------------
// Table laws
// ---------------------------------------------------------------------------

/// Reading a key back after setting it gives the value set.
pub proof fn lemma_tab_insert_get(t: Seq<(Seq<char>, Toml)>, k: Seq<char>, x: Toml)
    ensures
        tab_get(tab_insert(t, k, x), k) == Some(x),
    decreases t.len(),
{
    if t.len() > 0 && t[0].0 != k && !seq_lt(k, t[0].0) {
        lemma_tab_insert_get(t.drop_first(), k, x);
        assert((seq![t[0]] + tab_insert(t.drop_first(), k, x)).drop_first() =~= tab_insert(t.drop_first(), k, x));
    }
}

/// Setting one key leaves every other key as it was.
pub proof fn lemma_tab_insert_other(t: Seq<(Seq<char>, Toml)>, k: Seq<char>, x: Toml, k2: Seq<char>)
    requires
        k2 != k,
    ensures
        tab_get(tab_insert(t, k, x), k2) == tab_get(t, k2),
    decreases t.len(),
{
    let r = tab_insert(t, k, x);
    if t.len() == 0 {
        assert(r[0].0 == k);
        assert(r.drop_first() =~= Seq::<(Seq<char>, Toml)>::empty());
        assert(tab_get(r, k2) == tab_get(r.drop_first(), k2));
    } else if t[0].0 == k {
        assert(r[0].0 == k);
        assert(r.drop_first() =~= t.drop_first());
        assert(tab_get(r, k2) == tab_get(r.drop_first(), k2));
        assert(tab_get(t, k2) == tab_get(t.drop_first(), k2));
    } else if seq_lt(k, t[0].0) {
        assert(r[0].0 == k);
        assert(r.drop_first() =~= t);
        assert(tab_get(r, k2) == tab_get(r.drop_first(), k2));
    } else {
        lemma_tab_insert_other(t.drop_first(), k, x, k2);
        assert(r[0] == t[0]);
        assert(r.drop_first() =~= tab_insert(t.drop_first(), k, x));
        if t[0].0 != k2 {
            assert(tab_get(r, k2) == tab_get(r.drop_first(), k2));
            assert(tab_get(t, k2) == tab_get(t.drop_first(), k2));
        }
    }
}

/// Each key of the result is `k` or a key of `t`, and each key of `t` stays.
pub proof fn lemma_tab_insert_keys(t: Seq<(Seq<char>, Toml)>, k: Seq<char>, x: Toml)
    ensures
        forall|i: int|
            0 <= i < tab_insert(t, k, x).len() ==> (#[trigger] tab_insert(t, k, x)[i]).0 == k || exists|j: int|
                0 <= j < t.len() && t[j].0 == tab_insert(t, k, x)[i].0,
        tab_insert(t, k, x).len() >= 1,
        tab_insert(t, k, x)[0].0 == k || (t.len() > 0 && tab_insert(t, k, x)[0].0 == t[0].0),
    decreases t.len(),
{
    let r = tab_insert(t, k, x);
    if t.len() == 0 {
    } else if t[0].0 == k {
        assert forall|i: int| 0 <= i < r.len() implies (#[trigger] r[i]).0 == k || exists|j: int|
            0 <= j < t.len() && t[j].0 == r[i].0 by {
            if i > 0 {
                assert(r[i] == t[i]);
            }
        }
    } else if seq_lt(k, t[0].0) {
        assert forall|i: int| 0 <= i < r.len() implies (#[trigger] r[i]).0 == k || exists|j: int|
            0 <= j < t.len() && t[j].0 == r[i].0 by {
            if i > 0 {
                assert(r[i] == t[i - 1]);
            }
        }
    } else {
        let rest = tab_insert(t.drop_first(), k, x);
        lemma_tab_insert_keys(t.drop_first(), k, x);
        assert forall|i: int| 0 <= i < r.len() implies (#[trigger] r[i]).0 == k || exists|j: int|
            0 <= j < t.len() && t[j].0 == r[i].0 by {
            if i == 0 {
                assert(t[0].0 == r[0].0);
            } else {
                assert(r[i] == rest[i - 1]);
                if rest[i - 1].0 != k {
                    let j = choose|j: int| 0 <= j < t.drop_first().len() && t.drop_first()[j].0 == rest[i - 1].0;
                    assert(t[j + 1].0 == r[i].0);
                }
            }
        }
    }
}

/// Setting a key keeps the keys strictly ascending.
pub proof fn lemma_tab_insert_sorted(t: Seq<(Seq<char>, Toml)>, k: Seq<char>, x: Toml)
    requires
        keys_sorted(t),
    ensures
        keys_sorted(tab_insert(t, k, x)),
    decreases t.len(),
{
    let r = tab_insert(t, k, x);
    if t.len() == 0 {
    } else if t[0].0 == k {
        assert forall|i: int, j: int| 0 <= i < j < r.len() implies seq_lt(#[trigger] r[i].0, #[trigger] r[j].0) by {
            assert(r[j] == t[j]);
            if i > 0 {
                assert(r[i] == t[i]);
            }
        }
    } else if seq_lt(k, t[0].0) {
        assert forall|i: int, j: int| 0 <= i < j < r.len() implies seq_lt(#[trigger] r[i].0, #[trigger] r[j].0) by {
            assert(r[j] == t[j - 1]);
            if i > 0 {
                assert(r[i] == t[i - 1]);
            } else if j - 1 > 0 {
                assert(seq_lt(t[0].0, t[j - 1].0));
                lemma_seq_lt_transitive(k, t[0].0, t[j - 1].0);
            }
        }
    } else {
        let rest = tab_insert(t.drop_first(), k, x);
        assert(keys_sorted(t.drop_first())) by {
            assert forall|i: int, j: int| 0 <= i < j < t.drop_first().len() implies seq_lt(
                #[trigger] t.drop_first()[i].0,
                #[trigger] t.drop_first()[j].0,
            ) by {
                assert(t.drop_first()[i] == t[i + 1]);
                assert(t.drop_first()[j] == t[j + 1]);
            }
        }
        lemma_tab_insert_sorted(t.drop_first(), k, x);
        lemma_tab_insert_keys(t.drop_first(), k, x);
        lemma_seq_lt_total(k, t[0].0);
        assert forall|i: int, j: int| 0 <= i < j < r.len() implies seq_lt(#[trigger] r[i].0, #[trigger] r[j].0) by {
            assert(r[j] == rest[j - 1]);
            if i > 0 {
                assert(r[i] == rest[i - 1]);
            } else {
                assert(r[0] == t[0]);
                if rest[j - 1].0 != k {
                    let m = choose|m: int| 0 <= m < t.drop_first().len() && t.drop_first()[m].0 == rest[j - 1].0;
                    assert(t[m + 1].0 == rest[j - 1].0);
                }
            }
        }
    }
}

/// Setting a key to a well-formed value in a well-formed table keeps it well-formed.
pub proof fn lemma_tab_insert_wf(t: Seq<(Seq<char>, Toml)>, k: Seq<char>, x: Toml)
    requires
        wf(Toml::Tab(t)),
        wf(x),
    ensures
        wf(Toml::Tab(tab_insert(t, k, x))),
    decreases t.len(),
{
    lemma_tab_insert_sorted(t, k, x);
    let r = tab_insert(t, k, x);
    if t.len() == 0 {
        assert(r[0].1 == x);
    } else if t[0].0 == k {
        assert forall|i: int| 0 <= i < r.len() implies wf(#[trigger] r[i].1) by {
            if i > 0 {
                assert(r[i] == t[i]);
            }
        }
    } else if seq_lt(k, t[0].0) {
        assert forall|i: int| 0 <= i < r.len() implies wf(#[trigger] r[i].1) by {
            if i > 0 {
                assert(r[i] == t[i - 1]);
            }
        }
    } else {
        let rest = tab_insert(t.drop_first(), k, x);
        assert(wf(Toml::Tab(t.drop_first()))) by {
            assert forall|i: int, j: int| 0 <= i < j < t.drop_first().len() implies seq_lt(
                #[trigger] t.drop_first()[i].0,
                #[trigger] t.drop_first()[j].0,
            ) by {
                assert(t.drop_first()[i] == t[i + 1]);
                assert(t.drop_first()[j] == t[j + 1]);
            }
            assert forall|i: int| 0 <= i < t.drop_first().len() implies wf(#[trigger] t.drop_first()[i].1) by {
                assert(t.drop_first()[i] == t[i + 1]);
            }
        }
        lemma_tab_insert_wf(t.drop_first(), k, x);
        assert forall|i: int| 0 <= i < r.len() implies wf(#[trigger] r[i].1) by {
            if i > 0 {
                assert(r[i] == rest[i - 1]);
            }
        }
    }
}

// ---------------------------------------------------------------------------
// Executable operations
// ---------------------------------------------------------------------------

/// `a < b` in the key order (byte order of UTF-8, which is code point order).
pub fn str_lt(a: &str, b: &str) -> (r: bool)
    ensures
        r == seq_lt(a@, b@),
{
    let x = chars_of(a);
    let y = chars_of(b);
    let mut i: usize = 0;
    assert(a@.skip(0) =~= a@);
    assert(b@.skip(0) =~= b@);
    while i < x.len() && i < y.len() && x[i] == y[i]
        invariant
            i <= x@.len(),
            i <= y@.len(),
            x@ == a@,
            y@ == b@,
            seq_lt(a@, b@) == seq_lt(a@.skip(i as int), b@.skip(i as int)),
        decreases x.len() - i,
    {
        assert(a@.skip(i as int).drop_first() =~= a@.skip(i + 1));
        assert(b@.skip(i as int).drop_first() =~= b@.skip(i + 1));
        i = i + 1;
    }
    if i == y.len() {
        false
    } else if i == x.len() {
        true
    } else {
        x[i] < y[i]
    }
}

/// The entry of table `t` with key `k`.
pub fn table_get<'a>(t: &'a Vec<(String, TomlValue)>, k: &str) -> (r: Option<&'a TomlValue>)
    ensures
        match r {
            Some(v) => tab_get(model_tab(t@), k@) == Some(v.model()),
            None => tab_get(model_tab(t@), k@) is None,
        },
{
    let mut i: usize = 0;
    assert(model_tab(t@).skip(0) =~= model_tab(t@));
    while i < t.len()
        invariant
            i <= t@.len(),
            tab_get(model_tab(t@), k@) == tab_get(model_tab(t@).skip(i as int), k@),
        decreases t.len() - i,
    {
        if crate::text::str_eq(t[i].0.as_str(), k) {
            return Some(&t[i].1);
        }
        assert(model_tab(t@).skip(i as int).drop_first() =~= model_tab(t@).skip(i + 1));
        i = i + 1;
    }
    None
}

/// Sets key `k` of table `t` to `x`.
pub fn table_insert(t: &mut Vec<(String, TomlValue)>, k: String, x: TomlValue)
    ensures
        model_tab(final(t)@) == tab_insert(model_tab(old(t)@), k@, x.model()),
{
    let ghost m0 = model_tab(t@);
    let mut i: usize = 0;
    assert(m0.skip(0) =~= m0);
    assert(m0.take(0) + tab_insert(m0, k@, x.model()) =~= tab_insert(m0, k@, x.model()));
    while i < t.len() && !crate::text::str_eq(t[i].0.as_str(), k.as_str()) && !str_lt(k.as_str(), t[i].0.as_str())
        invariant
            i <= t@.len(),
            m0 == model_tab(t@),
            tab_insert(m0, k@, x.model()) == m0.take(i as int) + tab_insert(m0.skip(i as int), k@, x.model()),
        decreases t.len() - i,
    {
        let ghost rest = m0.skip(i as int);
        assert(rest.drop_first() =~= m0.skip(i + 1));
        assert(m0.take(i + 1) =~= m0.take(i as int).push(rest[0]));
        assert(m0.take(i as int) + (seq![rest[0]] + tab_insert(rest.drop_first(), k@, x.model())) =~= m0.take(i + 1)
            + tab_insert(m0.skip(i + 1), k@, x.model()));
        i = i + 1;
    }
    let ghost kx = (k@, x.model());
    if i == t.len() {
        assert(m0.take(i as int) =~= m0);
        t.push((k, x));
        assert(model_tab(t@) =~= m0 + seq![kx]);
    } else if crate::text::str_eq(t[i].0.as_str(), k.as_str()) {
        let ghost rest = m0.skip(i as int);
        assert(rest.drop_first() =~= m0.skip(i + 1));
        t.remove(i);
        t.insert(i, (k, x));
        assert(model_tab(t@) =~= m0.take(i as int) + (seq![kx] + rest.drop_first()));
    } else {
        let ghost rest = m0.skip(i as int);
        t.insert(i, (k, x));
        assert(model_tab(t@) =~= m0.take(i as int) + (seq![kx] + rest));
    }
}


/// The models of an array's items.
pub open spec fn model_arr(a: Seq<TomlValue>) -> Seq<Toml> {
    a.map_values(|e: TomlValue| e.model())
}

/// The model of a table value is the model of its entries.
pub proof fn lemma_table_model(t: Vec<(String, TomlValue)>)
    ensures
        TomlValue::Table(t).model() == Toml::Tab(model_tab(t@)),
{
    assert(model_tab(t@) =~= match TomlValue::Table(t).model() {
        Toml::Tab(m) => m,
        _ => Seq::empty(),
    });
}

/// The model of an array value is the model of its items.
pub proof fn lemma_array_model(a: Vec<TomlValue>)
    ensures
        TomlValue::Array(a).model() == Toml::Arr(model_arr(a@)),
{
    assert(model_arr(a@) =~= match TomlValue::Array(a).model() {
        Toml::Arr(m) => m,
        _ => Seq::empty(),
    });
}

/// The text of a string value.
pub open spec fn toml_str(v: Toml) -> Option<Seq<char>> {
    match v {
        Toml::Str(s) => Some(s),
        _ => None,
    }
}

/// The text of a string value, or empty text for any other value
/// (`as_str().unwrap_or("")`).
pub open spec fn str_or_empty(v: Toml) -> Seq<char> {
    match v {
        Toml::Str(s) => s,
        _ => Seq::empty(),
    }
}

impl TomlValue {
    /// The text of a string value.
    pub fn as_str(&self) -> (r: Option<&str>)
        ensures
            match r {
                Some(s) => toml_str(self.model()) == Some(s@),
                None => toml_str(self.model()) is None,
            },
    {
        match self {
            TomlValue::String(s) => Some(s.as_str()),
            _ => None,
        }
    }

    /// The text of a string value, or `""`.
    pub fn str_or_empty(&self) -> (r: &str)
        ensures
            r@ == str_or_empty(self.model()),
    {
        proof {
            reveal_strlit("");
        }
        match self {
            TomlValue::String(s) => s.as_str(),
            _ => "",
        }
    }

    /// The entries of a table value.
    pub fn as_table(&self) -> (r: Option<&Vec<(String, TomlValue)>>)
        ensures
            match r {
                Some(t) => self.model() == Toml::Tab(model_tab(t@)),
                None => self.model() !is Tab,
            },
    {
        match self {
            TomlValue::Table(t) => {
                proof {
                    lemma_table_model(*t);
                }
                Some(t)
            },
            _ => None,
        }
    }

    /// The items of an array value.
    pub fn as_array(&self) -> (r: Option<&Vec<TomlValue>>)
        ensures
            match r {
                Some(a) => self.model() == Toml::Arr(model_arr(a@)),
                None => self.model() !is Arr,
            },
    {
        match self {
            TomlValue::Array(a) => {
                proof {
                    lemma_array_model(*a);
                }
                Some(a)
            },
            _ => None,
        }
    }

    /// The value is a boolean.
    pub fn is_bool(&self) -> (r: bool)
        ensures
            r == self.model() is Bool,
    {
        match self {
            TomlValue::Boolean(_) => true,
            _ => false,
        }
    }
}


impl TomlValue {
    /// A copy of the value.
    pub fn deep_clone(&self) -> (r: TomlValue)
        ensures
            r.model() == self.model(),
        decreases self,
    {
        match self {
            TomlValue::String(s) => TomlValue::String(s.clone()),
            TomlValue::Integer(i) => TomlValue::Integer(*i),
            TomlValue::Float(f) => TomlValue::Float(*f),
            TomlValue::Boolean(b) => TomlValue::Boolean(*b),
            TomlValue::Datetime(s) => TomlValue::Datetime(s.clone()),
            TomlValue::Array(a) => {
                let out = clone_array(a);
                proof {
                    lemma_array_model(*a);
                    lemma_array_model(out);
                }
                TomlValue::Array(out)
            },
            TomlValue::Table(t) => {
                let out = clone_table(t);
                proof {
                    lemma_table_model(*t);
                    lemma_table_model(out);
                }
                TomlValue::Table(out)
            },
        }
    }
}

/// A copy of the items of an array.
pub fn clone_array(a: &Vec<TomlValue>) -> (r: Vec<TomlValue>)
    ensures
        model_arr(r@) == model_arr(a@),
    decreases a@,
{
    let mut out: Vec<TomlValue> = Vec::new();
    let mut i: usize = 0;
    while i < a.len()
        invariant
            i <= a@.len(),
            out@.len() == i,
            forall|j: int| 0 <= j < i ==> #[trigger] out@[j].model() == a@[j].model(),
        decreases a.len() - i,
    {
        proof {
            assert(decreases_to!(a@ => a@[i as int]));
        }
        let c = a[i].deep_clone();
        out.push(c);
        i = i + 1;
    }
    assert(model_arr(out@) =~= model_arr(a@));
    out
}

/// A copy of the entries of a table.
pub fn clone_table(t: &Vec<(String, TomlValue)>) -> (r: Vec<(String, TomlValue)>)
    ensures
        model_tab(r@) == model_tab(t@),
    decreases t@,
{
    let mut out: Vec<(String, TomlValue)> = Vec::new();
    let mut i: usize = 0;
    while i < t.len()
        invariant
            i <= t@.len(),
            out@.len() == i,
            forall|j: int| 0 <= j < i ==> #[trigger] model_tab(out@)[j] == model_tab(t@)[j],
        decreases t.len() - i,
    {
        proof {
            assert(decreases_to!(t@ => t@[i as int]));
            assert(decreases_to!(t@[i as int] => t@[i as int].1));
        }
        let k = t[i].0.clone();
        let v = t[i].1.deep_clone();
        let ghost before = out@;
        out.push((k, v));
        assert(model_tab(out@) =~= model_tab(before).push((k@, v.model())));
        i = i + 1;
    }
    assert(model_tab(out@) =~= model_tab(t@));
    out
}


/// Whether two values are equal (as their models).
pub fn toml_eq(a: &TomlValue, b: &TomlValue) -> (r: bool)
    ensures
        r == (a.model() == b.model()),
    decreases a,
{
    match (a, b) {
        (TomlValue::String(x), TomlValue::String(y)) => crate::text::str_eq(x.as_str(), y.as_str()),
        (TomlValue::Integer(x), TomlValue::Integer(y)) => *x == *y,
        (TomlValue::Float(x), TomlValue::Float(y)) => *x == *y,
        (TomlValue::Boolean(x), TomlValue::Boolean(y)) => *x == *y,
        (TomlValue::Datetime(x), TomlValue::Datetime(y)) => crate::text::str_eq(x.as_str(), y.as_str()),
        (TomlValue::Array(x), TomlValue::Array(y)) => {
            proof {
                lemma_array_model(*x);
                lemma_array_model(*y);
            }
            arrays_eq(x, y)
        },
        (TomlValue::Table(x), TomlValue::Table(y)) => {
            proof {
                lemma_table_model(*x);
                lemma_table_model(*y);
            }
            tables_eq(x, y)
        },
        _ => false,
    }
}

fn arrays_eq(x: &Vec<TomlValue>, y: &Vec<TomlValue>) -> (r: bool)
    ensures
        r == (model_arr(x@) == model_arr(y@)),
    decreases x@,
{
    if x.len() != y.len() {
        assert(model_arr(x@).len() != model_arr(y@).len());
        return false;
    }
    let mut i: usize = 0;
    while i < x.len()
        invariant
            x@.len() == y@.len(),
            i <= x@.len(),
            forall|j: int| 0 <= j < i ==> #[trigger] model_arr(x@)[j] == model_arr(y@)[j],
        decreases x.len() - i,
    {
        proof {
            assert(decreases_to!(x@ => x@[i as int]));
        }
        if !toml_eq(&x[i], &y[i]) {
            assert(model_arr(x@)[i as int] != model_arr(y@)[i as int]);
            return false;
        }
        i = i + 1;
    }
    assert(model_arr(x@) =~= model_arr(y@));
    true
}

fn tables_eq(x: &Vec<(String, TomlValue)>, y: &Vec<(String, TomlValue)>) -> (r: bool)
    ensures
        r == (model_tab(x@) == model_tab(y@)),
    decreases x@,
{
    if x.len() != y.len() {
        assert(model_tab(x@).len() != model_tab(y@).len());
        return false;
    }
    let mut i: usize = 0;
    while i < x.len()
        invariant
            x@.len() == y@.len(),
            i <= x@.len(),
            forall|j: int| 0 <= j < i ==> #[trigger] model_tab(x@)[j] == model_tab(y@)[j],
        decreases x.len() - i,
    {
        proof {
            assert(decreases_to!(x@ => x@[i as int]));
            assert(decreases_to!(x@[i as int] => x@[i as int].1));
        }
        if !crate::text::str_eq(x[i].0.as_str(), y[i].0.as_str()) || !toml_eq(&x[i].1, &y[i].1) {
            assert(model_tab(x@)[i as int] != model_tab(y@)[i as int]);
            return false;
        }
        i = i + 1;
    }
    assert(model_tab(x@) =~= model_tab(y@));
    true
}


// ---------------------------------------------------------------------------
// Sorted sets of strings
// ---------------------------------------------------------------------------

/// Strictly ascending in the key order.
pub open spec fn strictly_sorted(s: Seq<Seq<char>>) -> bool {
    forall|i: int, j: int| 0 <= i < j < s.len() ==> seq_lt(#[trigger] s[i], #[trigger] s[j])
}

/// The distinct strings of `v`, in ascending order (`sort` then `dedup`).
pub fn sort_dedup(v: &Vec<String>) -> (r: Vec<String>)
    ensures
        strictly_sorted(crate::text::views(r@)),
        forall|x: Seq<char>| crate::text::views(r@).contains(x) <==> crate::text::views(v@).contains(x),
{
    let ghost vs = crate::text::views(v@);
    let mut out: Vec<String> = Vec::new();
    let mut i: usize = 0;
    while i < v.len()
        invariant
            vs == crate::text::views(v@),
            i <= v@.len(),
            strictly_sorted(crate::text::views(out@)),
            forall|x: Seq<char>| crate::text::views(out@).contains(x) <==> vs.take(i as int).contains(x),
        decreases v.len() - i,
    {
        let ghost os = crate::text::views(out@);
        let item = v[i].as_str();
        let mut j: usize = 0;
        while j < out.len() && str_lt(out[j].as_str(), item)
            invariant
                os == crate::text::views(out@),
                vs == crate::text::views(v@),
                i < v@.len(),
                item@ == vs[i as int],
                strictly_sorted(os),
                forall|x: Seq<char>| os.contains(x) <==> vs.take(i as int).contains(x),
                j <= out@.len(),
                forall|k: int| 0 <= k < j ==> seq_lt(#[trigger] os[k], item@),
            decreases out.len() - j,
        {
            j = j + 1;
        }
        assert(vs.take(i + 1) =~= vs.take(i as int).push(item@));
        if j < out.len() && crate::text::str_eq(out[j].as_str(), item) {
            assert(os[j as int] == item@);
            assert forall|x: Seq<char>| crate::text::views(out@).contains(x) <==> vs.take(i + 1).contains(x) by {
                if x == item@ {
                    assert(os.contains(item@));
                    assert(vs.take(i + 1)[i as int] == x);
                }
                let t0 = vs.take(i as int);
                let t1 = vs.take(i + 1);
                if t1.contains(x) {
                    let k = choose|k: int| 0 <= k < t1.len() && t1[k] == x;
                    if k < i {
                        assert(t0[k] == x);
                        assert(t0.contains(x));
                    }
                }
                if t0.contains(x) {
                    let k = choose|k: int| 0 <= k < t0.len() && t0[k] == x;
                    assert(t1[k] == x);
                }
            }
        } else {
            let s = String::from_str(item);
            out.insert(j, s);
            let ghost ns = crate::text::views(out@);
            assert(ns =~= os.insert(j as int, item@));
            assert forall|a: int, b: int| 0 <= a < b < ns.len() implies seq_lt(#[trigger] ns[a], #[trigger] ns[b]) by {
                if j < os.len() {
                    lemma_seq_lt_total(item@, os[j as int]);
                    assert(!seq_lt(os[j as int], item@));
                }
                if a < j && b < j {
                    assert(ns[a] == os[a]);
                    assert(ns[b] == os[b]);
                } else if a < j && b == j {
                    assert(ns[a] == os[a]);
                } else if a < j && b > j {
                    assert(ns[a] == os[a]);
                    assert(ns[b] == os[b - 1]);
                    if a < b - 1 {
                    }
                } else if a == j && b > j {
                    assert(ns[b] == os[b - 1]);
                    if b - 1 > j {
                        assert(seq_lt(os[j as int], os[b - 1]));
                        lemma_seq_lt_transitive(item@, os[j as int], os[b - 1]);
                    }
                } else {
                    assert(ns[a] == os[a - 1]);
                    assert(ns[b] == os[b - 1]);
                }
            }
            assert forall|x: Seq<char>| ns.contains(x) <==> vs.take(i + 1).contains(x) by {
                if ns.contains(x) {
                    let k = choose|k: int| 0 <= k < ns.len() && ns[k] == x;
                    if k < j {
                        assert(os[k] == x);
                    } else if k > j {
                        assert(os[k - 1] == x);
                    }
                }
                if os.contains(x) {
                    let k = choose|k: int| 0 <= k < os.len() && os[k] == x;
                    if k < j {
                        assert(ns[k] == x);
                    } else {
                        assert(ns[k + 1] == x);
                    }
                }
                if x == item@ {
                    assert(ns[j as int] == x);
                    assert(vs.take(i + 1)[i as int] == x);
                }
                let t0 = vs.take(i as int);
                let t1 = vs.take(i + 1);
                if t1.contains(x) {
                    let k = choose|k: int| 0 <= k < t1.len() && t1[k] == x;
                    if k < i {
                        assert(t0[k] == x);
                        assert(t0.contains(x));
                    }
                }
                if t0.contains(x) {
                    let k = choose|k: int| 0 <= k < t0.len() && t0[k] == x;
                    assert(t1[k] == x);
                }
            }
        }
        i = i + 1;
    }
    assert(vs.take(v@.len() as int) =~= vs);
    out
}

} // verus!
