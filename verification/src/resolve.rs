//! Reading build settings with profile and target overrides.
//!
//! A setting `field` of section `s` is looked up under these keys, first found
//! first: `s.<target>.<profile>.field`, `s.<profile>.<target>.field`,
//! `s.<target>.field`, `s.<profile>.field`, `s.field` (the target keys only
//! when a target is given, with the short OS names expanded to triples).
use vstd::prelude::*;

use crate::build_config::{get_path_spec, split_dots, Config};
use crate::text::{concat2, concat3, str_eq, trim, trim_exec, views};
use crate::value::{model_arr, str_or_empty, tab_get, toml_str, Toml, TomlValue};

verus! {

/// Expands the short OS names to target triples; other names are kept.
pub open spec fn normalize_target_os_spec(t: Seq<char>) -> Seq<char> {
    if t == "linux"@ {
        "x86_64-unknown-linux-gnu"@
    } else if t == "macos"@ {
        "x86_64-apple-darwin"@
    } else if t == "windows"@ {
        "x86_64-pc-windows-msvc"@
    } else {
        t
    }
}

/// The target triple for a target name.
pub fn normalize_target_os<'a>(t: &'a str) -> (r: &'a str)
    ensures
        r@ == normalize_target_os_spec(t@),
{
    if str_eq(t, "linux") {
        "x86_64-unknown-linux-gnu"
    } else if str_eq(t, "macos") {
        "x86_64-apple-darwin"
    } else if str_eq(t, "windows") {
        "x86_64-pc-windows-msvc"
    } else {
        t
    }
}

/// The raw value at a dotted key.
pub open spec fn lookup(data: Toml, key: Seq<char>) -> Option<Toml> {
    get_path_spec(data, split_dots(key))
}

/// `a.b`
pub open spec fn dot2(a: Seq<char>, b: Seq<char>) -> Seq<char> {
    a + "."@ + b
}

/// `a.b.c`
pub open spec fn dot3(a: Seq<char>, b: Seq<char>, c: Seq<char>) -> Seq<char> {
    a + "."@ + b + "."@ + c
}

/// `a.b.c.d`
pub open spec fn dot4(a: Seq<char>, b: Seq<char>, c: Seq<char>, d: Seq<char>) -> Seq<char> {
    a + "."@ + b + "."@ + c + "."@ + d
}

/// The keys tried for a setting, in order.
pub open spec fn candidate_keys(section: Seq<char>, field: Seq<char>, profile: Seq<char>, target: Option<Seq<char>>) -> Seq<
    Seq<char>,
> {
    match target {
        Some(t) => {
            let nt = normalize_target_os_spec(t);
            seq![
                dot4(section, nt, profile, field),
                dot4(section, profile, nt, field),
                dot3(section, nt, field),
                dot3(section, profile, field),
                dot2(section, field),
            ]
        },
        None => seq![dot3(section, profile, field), dot2(section, field)],
    }
}

/// The value under the first of `keys` that has one.
pub open spec fn first_found(data: Toml, keys: Seq<Seq<char>>) -> Option<Toml>
    decreases keys.len(),
{
    if keys.len() == 0 {
        None
    } else {
        match lookup(data, keys[0]) {
            Some(v) => Some(v),
            None => first_found(data, keys.drop_first()),
        }
    }
}

/// A setting with its overrides applied.
pub open spec fn raw_setting(data: Toml, section: Seq<char>, field: Seq<char>, profile: Seq<char>, target: Option<Seq<char>>) -> Option<
    Toml,
> {
    first_found(data, candidate_keys(section, field, profile, target))
}

fn dot_join2(a: &str, b: &str) -> (r: String)
    ensures
        r@ == dot2(a@, b@),
{
    concat3(a, ".", b)
}

fn dot_join3(a: &str, b: &str, c: &str) -> (r: String)
    ensures
        r@ == dot3(a@, b@, c@),
{
    let x = concat3(a, ".", b);
    concat3(x.as_str(), ".", c)
}

fn dot_join4(a: &str, b: &str, c: &str, d: &str) -> (r: String)
    ensures
        r@ == dot4(a@, b@, c@, d@),
{
    let x = concat3(a, ".", b);
    let y = concat3(x.as_str(), ".", c);
    concat3(y.as_str(), ".", d)
}

/// Looks a setting up with its overrides (a copy of the value found).
pub fn get_config_value_raw(config: &Config, section: &str, field: &str, profile: &str, target: Option<&str>) -> (r: Option<
    TomlValue,
>)
    ensures
        match r {
            Some(v) => raw_setting(config.data_model(), section@, field@, profile@, crate::platform::opt_view(target))
                == Some(v.model()),
            None => raw_setting(config.data_model(), section@, field@, profile@, crate::platform::opt_view(target)) is None,
        },
{
    let mut keys: Vec<String> = Vec::new();
    if let Some(t) = target {
        let nt = normalize_target_os(t);
        keys.push(dot_join4(section, nt, profile, field));
        keys.push(dot_join4(section, profile, nt, field));
        keys.push(dot_join3(section, nt, field));
    }
    keys.push(dot_join3(section, profile, field));
    keys.push(dot_join2(section, field));
    let ghost ks = candidate_keys(section@, field@, profile@, crate::platform::opt_view(target));
    assert(views(keys@) =~= ks);
    let mut i: usize = 0;
    assert(ks.skip(0) =~= ks);
    while i < keys.len()
        invariant
            ks == views(keys@),
            ks == candidate_keys(section@, field@, profile@, crate::platform::opt_view(target)),
            i <= keys@.len(),
            first_found(config.data_model(), ks) == first_found(config.data_model(), ks.skip(i as int)),
        decreases keys.len() - i,
    {
        assert(ks.skip(i as int).drop_first() =~= ks.skip(i + 1));
        assert(ks.skip(i as int)[0] == keys@[i as int]@);
        assert(first_found(config.data_model(), ks.skip(i as int)) == match lookup(config.data_model(), keys@[i as int]@) {
            Some(v) => Some(v),
            None => first_found(config.data_model(), ks.skip(i + 1)),
        });
        if let Some(v) = config.get(keys[i].as_str()) {
            return Some(v.deep_clone());
        }
        i = i + 1;
    }
    None
}

/// `inherit` is on unless set to `false`.
pub open spec fn inherit_spec(data: Toml, section: Seq<char>, profile: Seq<char>, target: Option<Seq<char>>) -> bool {
    match raw_setting(data, section, "inherit"@, profile, target) {
        Some(Toml::Bool(b)) => b,
        _ => true,
    }
}

/// Whether a section inherits the base settings.
pub fn get_inherit(config: &Config, section: &str, profile: &str, target: Option<&str>) -> (r: bool)
    ensures
        r == inherit_spec(config.data_model(), section@, profile@, crate::platform::opt_view(target)),
{
    proof {
        reveal_strlit("inherit");
    }
    match get_config_value_raw(config, section, "inherit", profile, target) {
        Some(TomlValue::Boolean(b)) => b,
        _ => true,
    }
}

/// A string setting, trimmed, when it is not blank.
pub open spec fn value_spec(data: Toml, section: Seq<char>, field: Seq<char>, profile: Seq<char>, target: Option<Seq<char>>) -> Option<
    Seq<char>,
> {
    match raw_setting(data, section, field, profile, target) {
        Some(Toml::Str(s)) => if trim(s).len() > 0 {
            Some(trim(s))
        } else {
            None
        },
        _ => None,
    }
}

/// Reads a string setting, trimmed; blank or non-string values count as unset.
pub fn get_config_value(config: &Config, section: &str, field: &str, profile: &str, target: Option<&str>) -> (r: Option<
    String,
>)
    ensures
        match r {
            Some(s) => value_spec(config.data_model(), section@, field@, profile@, crate::platform::opt_view(target))
                == Some(s@),
            None => value_spec(config.data_model(), section@, field@, profile@, crate::platform::opt_view(target)) is None,
        },
{
    match get_config_value_raw(config, section, field, profile, target) {
        Some(v) => match v.as_str() {
            Some(s) => {
                let t = trim_exec(s);
                if t.as_str().is_empty() {
                    None
                } else {
                    Some(t)
                }
            },
            None => None,
        },
        None => None,
    }
}

/// The string at a dotted key, or empty text when it is absent or not a string.
pub open spec fn config_str_spec(data: Toml, key: Seq<char>) -> Seq<char> {
    match lookup(data, key) {
        Some(v) => str_or_empty(v),
        None => Seq::empty(),
    }
}

/// The string at a dotted key, or `""`.
pub fn get_config_str(config: &Config, key: &str) -> (r: String)
    ensures
        r@ == config_str_spec(config.data_model(), key@),
{
    match config.get(key) {
        Some(v) => String::from_str(v.str_or_empty()),
        None => String::new(),
    }
}

/// A `build` string setting: with inheritance the base `build.field` is the
/// fallback, without it the empty string.
pub open spec fn string_setting(data: Toml, field: Seq<char>, profile: Seq<char>, target: Option<Seq<char>>) -> Seq<char> {
    match value_spec(data, "build"@, field, profile, target) {
        Some(s) => s,
        None => if inherit_spec(data, "build"@, profile, target) {
            config_str_spec(data, "build."@ + field)
        } else {
            Seq::empty()
        },
    }
}

/// Reads a `build` string setting for a profile and target.
pub fn get_string_with_profile_and_target(config: &Config, field: &str, profile: &str, target: Option<&str>) -> (r: String)
    ensures
        r@ == string_setting(config.data_model(), field@, profile@, crate::platform::opt_view(target)),
{
    proof {
        reveal_strlit("build");
    }
    let inherit = get_inherit(config, "build", profile, target);
    match get_config_value(config, "build", field, profile, target) {
        Some(s) => s,
        None => if inherit {
            let key = concat2("build.", field);
            get_config_str(config, key.as_str())
        } else {
            String::new()
        },
    }
}

/// Reads a `build` string setting for a profile.
pub fn get_build_string_with_profile(config: &Config, field: &str, profile: &str) -> (r: String)
    ensures
        r@ == string_setting(config.data_model(), field@, profile@, None),
{
    get_string_with_profile_and_target(config, field, profile, None)
}

/// Reads a string setting of the `build.<lang>` section.
pub fn get_lang_string(config: &Config, lang: &str, field: &str, profile: &str, target: Option<&str>) -> (r: Option<
    String,
>)
    ensures
        match r {
            Some(s) => value_spec(config.data_model(), "build."@ + lang@, field@, profile@, crate::platform::opt_view(target))
                == Some(s@),
            None => value_spec(config.data_model(), "build."@ + lang@, field@, profile@, crate::platform::opt_view(target)) is None,
        },
{
    let section = concat2("build.", lang);
    get_config_value(config, section.as_str(), field, profile, target)
}

// ---------------------------------------------------------------------------
// Lists
// ---------------------------------------------------------------------------

/// The strings of an array of strings, or the message that it is not one.
pub open spec fn string_array_spec(v: Toml, key: Seq<char>) -> Result<Seq<Seq<char>>, Seq<char>> {
    match v {
        Toml::Arr(a) => if forall|i: int| 0 <= i < a.len() ==> (#[trigger] a[i]) is Str {
            Ok(a.map_values(|x: Toml| str_or_empty(x)))
        } else {
            Err(key + " must be an array of strings"@)
        },
        _ => Err(key + " must be an array of strings"@),
    }
}

/// Reads an array of strings.
pub fn parse_string_array(value: &TomlValue, key: &str) -> (r: Result<Vec<String>, String>)
    ensures
        match string_array_spec(value.model(), key@) {
            Ok(v) => r is Ok && views(r->Ok_0@) == v,
            Err(m) => r is Err && r->Err_0@ == m,
        },
{
    let arr = match value.as_array() {
        Some(a) => a,
        None => return Err(concat2(key, " must be an array of strings")),
    };
    let ghost m = model_arr(arr@);
    let mut out: Vec<String> = Vec::new();
    let mut i: usize = 0;
    while i < arr.len()
        invariant
            m == model_arr(arr@),
            value.model() == Toml::Arr(m),
            i <= arr@.len(),
            forall|j: int| 0 <= j < i ==> (#[trigger] m[j]) is Str,
            views(out@) == m.take(i as int).map_values(|x: Toml| str_or_empty(x)),
        decreases arr.len() - i,
    {
        match arr[i].as_str() {
            Some(s) => {
                let ghost before = out@;
                out.push(String::from_str(s));
                assert(views(out@) =~= views(before).push(s@));
                assert(m.take(i + 1).map_values(|x: Toml| str_or_empty(x)) =~= m.take(i as int).map_values(
                    |x: Toml| str_or_empty(x),
                ).push(str_or_empty(m[i as int])));
            },
            None => {
                assert(!(m[i as int] is Str));
                return Err(concat2(key, " must be an array of strings"));
            },
        }
        i = i + 1;
    }
    assert(m.take(arr@.len() as int) =~= m);
    Ok(out)
}

/// The strings at a dotted key; nothing when the key is absent.
pub open spec fn config_list_spec(data: Toml, key: Seq<char>) -> Result<Seq<Seq<char>>, Seq<char>> {
    match lookup(data, key) {
        Some(v) => string_array_spec(v, key),
        None => Ok(Seq::empty()),
    }
}

/// Reads the array of strings at a dotted key.
pub fn get_config_list(config: &Config, key: &str) -> (r: Result<Vec<String>, String>)
    ensures
        match config_list_spec(config.data_model(), key@) {
            Ok(v) => r is Ok && views(r->Ok_0@) == v,
            Err(m) => r is Err && r->Err_0@ == m,
        },
{
    match config.get(key) {
        Some(v) => parse_string_array(v, key),
        None => Ok(Vec::new()),
    }
}

/// A list setting of the `build.<lang>` section.
pub open spec fn lang_list_spec(data: Toml, lang: Seq<char>, field: Seq<char>, profile: Seq<char>, target: Option<Seq<char>>) -> Result<
    Seq<Seq<char>>,
    Seq<char>,
> {
    match raw_setting(data, "build."@ + lang, field, profile, target) {
        Some(v) => string_array_spec(v, field),
        None => Ok(Seq::empty()),
    }
}

/// Reads a list setting of the `build.<lang>` section.
pub fn get_lang_list(config: &Config, lang: &str, field: &str, profile: &str, target: Option<&str>) -> (r: Result<
    Vec<String>,
    String,
>)
    ensures
        match lang_list_spec(config.data_model(), lang@, field@, profile@, crate::platform::opt_view(target)) {
            Ok(v) => r is Ok && views(r->Ok_0@) == v,
            Err(m) => r is Err && r->Err_0@ == m,
        },
{
    let section = concat2("build.", lang);
    match get_config_value_raw(config, section.as_str(), field, profile, target) {
        Some(v) => parse_string_array(&v, field),
        None => Ok(Vec::new()),
    }
}

/// The table `[build.<name>]`, if it is one.
pub open spec fn profile_table_spec(data: Toml, name: Seq<char>) -> Option<Seq<(Seq<char>, Toml)>> {
    match lookup(data, "build."@ + name) {
        Some(Toml::Tab(t)) => Some(t),
        _ => None,
    }
}

/// Extra entries a `[build.<name>]` table lists under `field`.
pub open spec fn extra_list(data: Toml, name: Seq<char>, field: Seq<char>) -> Result<Seq<Seq<char>>, Seq<char>> {
    match profile_table_spec(data, name) {
        Some(t) => match tab_get(t, field) {
            Some(v) => string_array_spec(v, dot3("build"@, name, field)),
            None => Ok(Seq::empty()),
        },
        None => Ok(Seq::empty()),
    }
}

/// A `build` list setting for a profile and target. With inheritance the base
/// list comes first; a list found under an override key is appended (unless it
/// is the base list itself); when no key has the setting, the profile's and
/// the target's own tables may add entries. Without inheritance the list
/// found, if any, is the whole result.
pub open spec fn list_setting(data: Toml, field: Seq<char>, profile: Seq<char>, target: Option<Seq<char>>) -> Result<
    Seq<Seq<char>>,
    Seq<char>,
> {
    let inherit = inherit_spec(data, "build"@, profile, target);
    let base_key = "build."@ + field;
    let base = if inherit {
        config_list_spec(data, base_key)
    } else {
        Ok(Seq::empty())
    };
    match base {
        Err(e) => Err(e),
        Ok(out) => match raw_setting(data, "build"@, field, profile, target) {
            Some(val) => if val is Arr {
                let is_base = inherit && lookup(data, base_key) == Some(val);
                if !is_base {
                    match string_array_spec(val, base_key) {
                        Err(e) => Err(e),
                        Ok(custom) => Ok(
                            if inherit {
                                out + custom
                            } else {
                                custom
                            },
                        ),
                    }
                } else {
                    Ok(out)
                }
            } else {
                Ok(out)
            },
            None => if inherit {
                match extra_list(data, profile, field) {
                    Err(e) => Err(e),
                    Ok(extra) => match target {
                        Some(t) => match extra_list(data, normalize_target_os_spec(t), field) {
                            Err(e) => Err(e),
                            Ok(extra2) => Ok(out + extra + extra2),
                        },
                        None => Ok(out + extra),
                    },
                }
            } else {
                Ok(out)
            },
        },
    }
}

fn profile_table<'a>(config: &'a Config, name: &str) -> (r: Option<&'a Vec<(String, TomlValue)>>)
    ensures
        match r {
            Some(t) => profile_table_spec(config.data_model(), name@) == Some(crate::value::model_tab(t@)),
            None => profile_table_spec(config.data_model(), name@) is None,
        },
{
    let key = concat2("build.", name);
    match config.get(key.as_str()) {
        Some(v) => v.as_table(),
        None => None,
    }
}

fn extra_list_exec(config: &Config, name: &str, field: &str) -> (r: Result<Vec<String>, String>)
    ensures
        match extra_list(config.data_model(), name@, field@) {
            Ok(v) => r is Ok && views(r->Ok_0@) == v,
            Err(m) => r is Err && r->Err_0@ == m,
        },
{
    match profile_table(config, name) {
        Some(t) => match crate::value::table_get(t, field) {
            Some(v) => {
                let key = dot_join3("build", name, field);
                proof {
                    reveal_strlit("build");
                }
                parse_string_array(v, key.as_str())
            },
            None => Ok(Vec::new()),
        },
        None => Ok(Vec::new()),
    }
}

/// Reads a `build` list setting for a profile and target.
pub fn get_list_with_profile_and_target(config: &Config, field: &str, profile: &str, target: Option<&str>) -> (r: Result<
    Vec<String>,
    String,
>)
    ensures
        match list_setting(config.data_model(), field@, profile@, crate::platform::opt_view(target)) {
            Ok(v) => r is Ok && views(r->Ok_0@) == v,
            Err(m) => r is Err && r->Err_0@ == m,
        },
{
    proof {
        reveal_strlit("build");
    }
    let inherit = get_inherit(config, "build", profile, target);
    let base_key = concat2("build.", field);
    let mut out: Vec<String> = if inherit {
        match get_config_list(config, base_key.as_str()) {
            Ok(v) => v,
            Err(e) => return Err(e),
        }
    } else {
        Vec::new()
    };
    match get_config_value_raw(config, "build", field, profile, target) {
        Some(val) => {
            if val.as_array().is_some() {
                let is_base = inherit && match config.get(base_key.as_str()) {
                    Some(b) => crate::value::toml_eq(b, &val),
                    None => false,
                };
                if !is_base {
                    let custom = match parse_string_array(&val, base_key.as_str()) {
                        Ok(c) => c,
                        Err(e) => return Err(e),
                    };
                    if inherit {
                        let ghost before = out@;
                        crate::text::extend_strings(&mut out, custom.as_slice());
                        assert(views(out@) =~= views(before) + views(custom@));
                    } else {
                        out = custom;
                    }
                }
            }
        },
        None => {
            if inherit {
                let extra = match extra_list_exec(config, profile, field) {
                    Ok(e) => e,
                    Err(e) => return Err(e),
                };
                let ghost before = out@;
                crate::text::extend_strings(&mut out, extra.as_slice());
                assert(views(out@) =~= views(before) + views(extra@));
                if let Some(t) = target {
                    let nt = normalize_target_os(t);
                    let extra2 = match extra_list_exec(config, nt, field) {
                        Ok(e) => e,
                        Err(e) => return Err(e),
                    };
                    let ghost before2 = out@;
                    crate::text::extend_strings(&mut out, extra2.as_slice());
                    assert(views(out@) =~= views(before2) + views(extra2@));
                }
            }
        },
    }
    Ok(out)
}

/// Reads a `build` list setting for a profile.
pub fn get_list_with_profile(config: &Config, field: &str, profile: &str) -> (r: Result<Vec<String>, String>)
    ensures
        match list_setting(config.data_model(), field@, profile@, None) {
            Ok(v) => r is Ok && views(r->Ok_0@) == v,
            Err(m) => r is Err && r->Err_0@ == m,
        },
{
    get_list_with_profile_and_target(config, field, profile, None)
}

/// The targets a profile builds for.
pub fn get_targets(config: &Config, profile: &str) -> (r: Result<Vec<String>, String>)
    ensures
        match list_setting(config.data_model(), "targets"@, profile@, None) {
            Ok(v) => r is Ok && views(r->Ok_0@) == v,
            Err(m) => r is Err && r->Err_0@ == m,
        },
{
    proof {
        reveal_strlit("targets");
    }
    get_list_with_profile(config, "targets", profile)
}

} // verus!
