//! The rules a manifest must follow. Each check reports the first rule broken,
//! in the order the rules are listed here.
use vstd::prelude::*;

use crate::build_config::{
    get_path, get_path_spec, is_invalid, is_valid_kind, is_valid_kind_exec, is_workspace_only_spec,
    language_values, BuildConfig, ConfigError, DcrConfig, LanguageConfig, PackageConfig, ToolchainConfig,
};
use crate::text::{concat2, concat3, contains, contains_str, is_ascii_alnum, lower, str_eq, trim, trim_exec};
use crate::value::{model_arr, model_tab, str_or_empty, tab_get, table_get, Toml, TomlValue};

verus! {

/// The outcome `r` is the outcome `s` describes: success, or an `Invalid`
/// error with the message of `s`.
pub open spec fn matches_check(r: Result<(), ConfigError>, s: Result<(), Seq<char>>) -> bool {
    match s {
        Ok(_) => r is Ok,
        Err(m) => r is Err && is_invalid(r->Err_0, m),
    }
}

/// The first failing check of `a` then `b`.
pub open spec fn chain(a: Result<(), Seq<char>>, b: Result<(), Seq<char>>) -> Result<(), Seq<char>> {
    if a is Err {
        a
    } else {
        b
    }
}

/// Text that is empty after trimming whitespace.
pub open spec fn blank(s: Seq<char>) -> bool {
    trim(s).len() == 0
}

/// Whether `s` is empty after trimming whitespace.
pub fn is_blank(s: &str) -> (r: bool)
    ensures
        r == blank(s@),
{
    let t = trim_exec(s);
    t.as_str().is_empty()
}

fn invalid(m: String) -> (r: Result<(), ConfigError>)
    ensures
        r is Err && is_invalid(r->Err_0, m@),
{
    Err(ConfigError::Invalid(m))
}

// ---------------------------------------------------------------------------
// Plain strings and lists
// ---------------------------------------------------------------------------

/// A value under `key` must not be blank.
pub open spec fn non_empty_check(value: Seq<char>, key: Seq<char>) -> Result<(), Seq<char>> {
    if blank(value) {
        Err(key + " contains empty value"@)
    } else {
        Ok(())
    }
}

/// Every value of a list under `key` must not be blank.
pub open spec fn list_check(values: Seq<Seq<char>>, key: Seq<char>) -> Result<(), Seq<char>>
    decreases values.len(),
{
    if values.len() == 0 {
        Ok(())
    } else {
        chain(non_empty_check(values[0], key), list_check(values.drop_first(), key))
    }
}

/// An optional value under `key`, when present, must not be blank.
pub open spec fn opt_check(value: Option<String>, key: Seq<char>) -> Result<(), Seq<char>> {
    match value {
        Some(v) => non_empty_check(v@, key),
        None => Ok(()),
    }
}

fn validate_non_empty_string(value: &str, key: &str) -> (r: Result<(), ConfigError>)
    ensures
        matches_check(r, non_empty_check(value@, key@)),
{
    if is_blank(value) {
        return invalid(concat2(key, " contains empty value"));
    }
    Ok(())
}

fn validate_string_list(values: &[String], key: &str) -> (r: Result<(), ConfigError>)
    ensures
        matches_check(r, list_check(crate::text::views(values@), key@)),
{
    let ghost vs = crate::text::views(values@);
    let mut i: usize = 0;
    assert(vs.skip(0) =~= vs);
    while i < values.len()
        invariant
            vs == crate::text::views(values@),
            i <= values@.len(),
            list_check(vs, key@) == list_check(vs.skip(i as int), key@),
        decreases values.len() - i,
    {
        assert(vs.skip(i as int).drop_first() =~= vs.skip(i + 1));
        assert(vs.skip(i as int)[0] == values@[i as int]@);
        let r = validate_non_empty_string(values[i].as_str(), key);
        if r.is_err() {
            return r;
        }
        i = i + 1;
    }
    Ok(())
}

fn validate_opt(value: &Option<String>, key: &str) -> (r: Result<(), ConfigError>)
    ensures
        matches_check(r, opt_check(*value, key@)),
{
    match value {
        Some(v) => validate_non_empty_string(v.as_str(), key),
        None => Ok(()),
    }
}

// ---------------------------------------------------------------------------
// Package name
// ---------------------------------------------------------------------------

/// Characters allowed in a package name.
pub open spec fn name_char_ok(c: char) -> bool {
    is_ascii_alnum(c) || c == '_' || c == '-'
}

/// The rules for a package name: no surrounding whitespace, not `.`, `..` or
/// holding `..`, and only ASCII letters, digits, `_` and `-`.
pub open spec fn package_name_check(name: Seq<char>) -> Result<(), Seq<char>> {
    if trim(name) != name {
        Err("package.name must not contain leading or trailing whitespace"@)
    } else if name == "."@ || name == ".."@ || contains(name, ".."@) {
        Err("package.name is invalid"@)
    } else if !(forall|i: int| 0 <= i < name.len() ==> name_char_ok(#[trigger] name[i])) {
        Err("package.name must contain only ASCII letters, digits, '_' or '-'"@)
    } else {
        Ok(())
    }
}

/// Checks a package name.
pub fn validate_package_name(name: &str) -> (r: Result<(), ConfigError>)
    ensures
        matches_check(r, package_name_check(name@)),
{
    let trimmed = trim_exec(name);
    if !str_eq(trimmed.as_str(), name) {
        return invalid(String::from_str("package.name must not contain leading or trailing whitespace"));
    }
    if str_eq(name, ".") || str_eq(name, "..") || contains_str(name, "..") {
        return invalid(String::from_str("package.name is invalid"));
    }
    let v = crate::text::chars_of(name);
    let mut i: usize = 0;
    while i < v.len()
        invariant
            v@ == name@,
            i <= v@.len(),
            trim(name@) == name@,
            !(name@ == "."@ || name@ == ".."@ || contains(name@, ".."@)),
            forall|j: int| 0 <= j < i ==> name_char_ok(#[trigger] name@[j]),
        decreases v.len() - i,
    {
        let c = v[i];
        if !(crate::text::is_ascii_alnum_exec(c) || c == '_' || c == '-') {
            assert(!name_char_ok(name@[i as int]));
            return invalid(String::from_str("package.name must contain only ASCII letters, digits, '_' or '-'"));
        }
        i = i + 1;
    }
    Ok(())
}

// ---------------------------------------------------------------------------
// Typed sections
// ---------------------------------------------------------------------------

/// `build.language` (typed): at least one language, none blank.
pub open spec fn language_config_check(l: LanguageConfig, key: Seq<char>) -> Result<(), Seq<char>> {
    if language_values(l).len() == 0 {
        Err(key + " is empty"@)
    } else {
        list_check(language_values(l), key)
    }
}

fn validate_language_config(language: &LanguageConfig, key: &str) -> (r: Result<(), ConfigError>)
    ensures
        matches_check(r, language_config_check(*language, key@)),
{
    match language {
        LanguageConfig::One(v) => {
            assert(crate::text::views(seq![*v]) =~= seq![v@]);
            assert(seq![v@].drop_first() =~= Seq::<Seq<char>>::empty());
            assert(list_check(seq![v@].drop_first(), key@) == Ok::<(), Seq<char>>(()));
            validate_non_empty_string(v.as_str(), key)
        },
        LanguageConfig::Many(values) => {
            if values.len() == 0 {
                return invalid(concat2(key, " is empty"));
            }
            validate_string_list(values.as_slice(), key)
        },
    }
}

/// The language is assembly alone.
pub open spec fn lang_is_asm(l: LanguageConfig) -> bool {
    match l {
        LanguageConfig::One(s) => lower(trim(s@)) == "asm"@,
        LanguageConfig::Many(v) => v@.len() == 1 && lower(trim(v@[0]@)) == "asm"@,
    }
}

fn lang_is_asm_exec(l: &LanguageConfig) -> (r: bool)
    ensures
        r == lang_is_asm(*l),
{
    proof {
        reveal_strlit("asm");
        assert(lower("asm"@) =~= "asm"@);
    }
    match l {
        LanguageConfig::One(s) => {
            let t = trim_exec(s.as_str());
            crate::text::eq_ignore_ascii_case(t.as_str(), "asm")
        },
        LanguageConfig::Many(v) => {
            if v.len() != 1 {
                return false;
            }
            let t = trim_exec(v[0].as_str());
            crate::text::eq_ignore_ascii_case(t.as_str(), "asm")
        },
    }
}

/// `[toolchain]`: each tool given must not be blank.
pub open spec fn toolchain_check(t: Option<ToolchainConfig>) -> Result<(), Seq<char>> {
    match t {
        None => Ok(()),
        Some(t) => chain(
            opt_check(t.cc, "toolchain.cc"@),
            chain(
                opt_check(t.cxx, "toolchain.cxx"@),
                chain(
                    opt_check(t.assembler, "toolchain.as"@),
                    chain(opt_check(t.ar, "toolchain.ar"@), opt_check(t.ld, "toolchain.ld"@)),
                ),
            ),
        ),
    }
}

fn validate_toolchain(toolchain: &Option<ToolchainConfig>) -> (r: Result<(), ConfigError>)
    ensures
        matches_check(r, toolchain_check(*toolchain)),
{
    match toolchain {
        None => Ok(()),
        Some(t) => {
            let r = validate_opt(&t.cc, "toolchain.cc");
            if r.is_err() {
                return r;
            }
            let r = validate_opt(&t.cxx, "toolchain.cxx");
            if r.is_err() {
                return r;
            }
            let r = validate_opt(&t.assembler, "toolchain.as");
            if r.is_err() {
                return r;
            }
            let r = validate_opt(&t.ar, "toolchain.ar");
            if r.is_err() {
                return r;
            }
            validate_opt(&t.ld, "toolchain.ld")
        },
    }
}

/// A kind, when given and not blank, must be an accepted one.
pub open spec fn kind_check(kind: Option<Seq<char>>, msg: Seq<char>) -> Result<(), Seq<char>> {
    match kind {
        Some(k) => if trim(k).len() > 0 && !is_valid_kind(trim(k)) {
            Err(msg)
        } else {
            Ok(())
        },
        None => Ok(()),
    }
}

fn validate_kind(kind: Option<&str>, msg: &str) -> (r: Result<(), ConfigError>)
    ensures
        matches_check(r, kind_check(crate::platform::opt_view(kind), msg@)),
{
    match kind {
        Some(k) => {
            let t = trim_exec(k);
            if !t.as_str().is_empty() && !is_valid_kind_exec(t.as_str()) {
                return invalid(String::from_str(msg));
            }
            Ok(())
        },
        None => Ok(()),
    }
}

fn opt_str(o: &Option<String>) -> (r: Option<&str>)
    ensures
        crate::platform::opt_view(r) == match *o {
            Some(s) => Some(s@),
            None => None::<Seq<char>>,
        },
{
    match o {
        Some(s) => Some(s.as_str()),
        None => None,
    }
}

// ---------------------------------------------------------------------------
// Profile sections (`[build.release]`, `[build.debug]`)
// ---------------------------------------------------------------------------

/// A string value or an array of strings, neither blank.
pub open spec fn lang_value_check(v: Toml) -> Result<(), Seq<char>> {
    match v {
        Toml::Str(s) => if blank(s) {
            Err("build.language is empty"@)
        } else {
            Ok(())
        },
        Toml::Arr(a) => if a.len() == 0 {
            Err("build.language is empty"@)
        } else {
            items_check(a, "build.language contains empty value"@)
        },
        _ => Err("build.language must be string or array"@),
    }
}

/// No item of the array is blank (items that are not strings count as blank).
pub open spec fn items_check(a: Seq<Toml>, msg: Seq<char>) -> Result<(), Seq<char>>
    decreases a.len(),
{
    if a.len() == 0 {
        Ok(())
    } else if blank(str_or_empty(a[0])) {
        Err(msg)
    } else {
        items_check(a.drop_first(), msg)
    }
}

fn validate_items(a: &Vec<TomlValue>, msg: &str) -> (r: Result<(), ConfigError>)
    ensures
        matches_check(r, items_check(model_arr(a@), msg@)),
{
    let ghost m = model_arr(a@);
    let mut i: usize = 0;
    assert(m.skip(0) =~= m);
    while i < a.len()
        invariant
            m == model_arr(a@),
            i <= a@.len(),
            items_check(m, msg@) == items_check(m.skip(i as int), msg@),
        decreases a.len() - i,
    {
        assert(m.skip(i as int).drop_first() =~= m.skip(i + 1));
        if is_blank(a[i].str_or_empty()) {
            return invalid(String::from_str(msg));
        }
        i = i + 1;
    }
    Ok(())
}

fn validate_language_value(value: &TomlValue) -> (r: Result<(), ConfigError>)
    ensures
        matches_check(r, lang_value_check(value.model())),
{
    if let Some(s) = value.as_str() {
        if is_blank(s) {
            return invalid(String::from_str("build.language is empty"));
        }
        return Ok(());
    }
    match value.as_array() {
        None => invalid(String::from_str("build.language must be string or array")),
        Some(arr) => {
            if arr.len() == 0 {
                return invalid(String::from_str("build.language is empty"));
            }
            validate_items(arr, "build.language contains empty value")
        },
    }
}

/// `build.<profile>.<key>`.
pub open spec fn profile_key(profile: Seq<char>, key: Seq<char>) -> Seq<char> {
    "build."@ + profile + "."@ + key
}

fn profile_key_exec(profile: &str, key: &str) -> (r: String)
    ensures
        r@ == profile_key(profile@, key@),
{
    let a = concat3("build.", profile, ".");
    concat2(a.as_str(), key)
}

/// Keys of a profile section whose values must be non-blank strings.
pub open spec fn profile_str_keys() -> Seq<Seq<char>> {
    seq!["standard"@, "compiler"@, "kind"@, "target"@, "out_dir"@, "platform"@]
}

/// Keys of a profile section whose values must be arrays of non-blank strings.
pub open spec fn profile_list_keys() -> Seq<Seq<char>> {
    seq![
        "cflags"@,
        "ldflags"@,
        "exclude"@,
        "include"@,
        "roots"@,
        "pkg_config"@,
        "generated"@,
        "expect"@,
        "clean"@,
        "targets"@,
    ]
}

/// Keys of a profile section that hold build steps.
pub open spec fn profile_step_keys() -> Seq<Seq<char>> {
    seq!["steps"@, "post_steps"@]
}

/// Fields every build step must give.
pub open spec fn step_fields() -> Seq<Seq<char>> {
    seq!["name"@, "in"@, "out"@, "cmd"@]
}

/// Each of `keys` present in `t` holds a non-blank string.
pub open spec fn str_keys_check(t: Seq<(Seq<char>, Toml)>, profile: Seq<char>, keys: Seq<Seq<char>>) -> Result<
    (),
    Seq<char>,
>
    decreases keys.len(),
{
    if keys.len() == 0 {
        Ok(())
    } else {
        let here = match tab_get(t, keys[0]) {
            Some(v) => if blank(str_or_empty(v)) {
                Err(profile_key(profile, keys[0]) + " is empty"@)
            } else {
                Ok(())
            },
            None => Ok(()),
        };
        chain(here, str_keys_check(t, profile, keys.drop_first()))
    }
}

/// Each of `keys` present in `t` holds an array of non-blank strings.
pub open spec fn list_keys_check(t: Seq<(Seq<char>, Toml)>, profile: Seq<char>, keys: Seq<Seq<char>>) -> Result<
    (),
    Seq<char>,
>
    decreases keys.len(),
{
    if keys.len() == 0 {
        Ok(())
    } else {
        let here = match tab_get(t, keys[0]) {
            Some(Toml::Arr(a)) => items_check(a, profile_key(profile, keys[0]) + " contains empty value"@),
            Some(_) => Err(profile_key(profile, keys[0]) + " must be an array of strings"@),
            None => Ok(()),
        };
        chain(here, list_keys_check(t, profile, keys.drop_first()))
    }
}

/// Each of `fields` of a step is a non-blank string.
pub open spec fn step_fields_check(
    st: Seq<(Seq<char>, Toml)>,
    profile: Seq<char>,
    key: Seq<char>,
    fields: Seq<Seq<char>>,
) -> Result<(), Seq<char>>
    decreases fields.len(),
{
    if fields.len() == 0 {
        Ok(())
    } else {
        let s = match tab_get(st, fields[0]) {
            Some(v) => str_or_empty(v),
            None => Seq::empty(),
        };
        if blank(s) {
            Err(profile_key(profile, key) + " missing "@ + fields[0])
        } else {
            step_fields_check(st, profile, key, fields.drop_first())
        }
    }
}

/// Every entry of a step list is a table giving every step field.
pub open spec fn step_entries_check(a: Seq<Toml>, profile: Seq<char>, key: Seq<char>) -> Result<(), Seq<char>>
    decreases a.len(),
{
    if a.len() == 0 {
        Ok(())
    } else {
        let here = match a[0] {
            Toml::Tab(st) => step_fields_check(st, profile, key, step_fields()),
            _ => Err(profile_key(profile, key) + " entries must be tables"@),
        };
        chain(here, step_entries_check(a.drop_first(), profile, key))
    }
}

/// Each of `keys` present in `t` holds a list of steps.
pub open spec fn step_keys_check(t: Seq<(Seq<char>, Toml)>, profile: Seq<char>, keys: Seq<Seq<char>>) -> Result<
    (),
    Seq<char>,
>
    decreases keys.len(),
{
    if keys.len() == 0 {
        Ok(())
    } else {
        let here = match tab_get(t, keys[0]) {
            Some(Toml::Arr(a)) => step_entries_check(a, profile, keys[0]),
            Some(_) => Err(profile_key(profile, keys[0]) + " must be an array"@),
            None => Ok(()),
        };
        chain(here, step_keys_check(t, profile, keys.drop_first()))
    }
}

/// The rules of one profile section.
pub open spec fn profile_section_check(profile: Seq<char>, t: Seq<(Seq<char>, Toml)>) -> Result<(), Seq<char>> {
    let lang = match tab_get(t, "language"@) {
        Some(l) => lang_value_check(l),
        None => Ok(()),
    };
    let kind = match tab_get(t, "kind"@) {
        Some(Toml::Str(k)) => kind_check(Some(k), profile_key(profile, "kind"@) + " is invalid"@),
        _ => Ok(()),
    };
    let src_disable = match tab_get(t, "src_disable"@) {
        Some(v) => if v is Bool {
            Ok(())
        } else {
            Err(profile_key(profile, "src_disable"@) + " must be boolean"@)
        },
        None => Ok(()),
    };
    chain(
        lang,
        chain(
            str_keys_check(t, profile, profile_str_keys()),
            chain(
                kind,
                chain(
                    src_disable,
                    chain(
                        list_keys_check(t, profile, profile_list_keys()),
                        step_keys_check(t, profile, profile_step_keys()),
                    ),
                ),
            ),
        ),
    )
}

fn validate_str_key(t: &Vec<(String, TomlValue)>, profile: &str, key: &str) -> (r: Result<(), ConfigError>)
    ensures
        matches_check(
            r,
            match tab_get(model_tab(t@), key@) {
                Some(v) => if blank(str_or_empty(v)) {
                    Err(profile_key(profile@, key@) + " is empty"@)
                } else {
                    Ok(())
                },
                None => Ok(()),
            },
        ),
{
    match table_get(t, key) {
        Some(v) => {
            if is_blank(v.str_or_empty()) {
                let k = profile_key_exec(profile, key);
                return invalid(concat2(k.as_str(), " is empty"));
            }
            Ok(())
        },
        None => Ok(()),
    }
}

fn validate_list_key(t: &Vec<(String, TomlValue)>, profile: &str, key: &str) -> (r: Result<(), ConfigError>)
    ensures
        matches_check(
            r,
            match tab_get(model_tab(t@), key@) {
                Some(Toml::Arr(a)) => items_check(a, profile_key(profile@, key@) + " contains empty value"@),
                Some(_) => Err(profile_key(profile@, key@) + " must be an array of strings"@),
                None => Ok(()),
            },
        ),
{
    match table_get(t, key) {
        Some(v) => match v.as_array() {
            Some(arr) => {
                let k = profile_key_exec(profile, key);
                let m = concat2(k.as_str(), " contains empty value");
                validate_items(arr, m.as_str())
            },
            None => {
                let k = profile_key_exec(profile, key);
                invalid(concat2(k.as_str(), " must be an array of strings"))
            },
        },
        None => Ok(()),
    }
}

fn validate_step_entries(a: &Vec<TomlValue>, profile: &str, key: &str) -> (r: Result<(), ConfigError>)
    ensures
        matches_check(r, step_entries_check(model_arr(a@), profile@, key@)),
{
    let ghost m = model_arr(a@);
    let mut i: usize = 0;
    assert(m.skip(0) =~= m);
    while i < a.len()
        invariant
            m == model_arr(a@),
            i <= a@.len(),
            step_entries_check(m, profile@, key@) == step_entries_check(m.skip(i as int), profile@, key@),
        decreases a.len() - i,
    {
        assert(m.skip(i as int).drop_first() =~= m.skip(i + 1));
        assert(m.skip(i as int)[0] == a@[i as int].model());
        match a[i].as_table() {
            Some(st) => {
                proof {
                    reveal_strlit("name");
                    reveal_strlit("in");
                    reveal_strlit("out");
                    reveal_strlit("cmd");
                }
                let r = validate_step_fields(st, profile, key);
                if r.is_err() {
                    return r;
                }
            },
            None => {
                let k = profile_key_exec(profile, key);
                return invalid(concat2(k.as_str(), " entries must be tables"));
            },
        }
        i = i + 1;
    }
    Ok(())
}

fn validate_step_fields(st: &Vec<(String, TomlValue)>, profile: &str, key: &str) -> (r: Result<(), ConfigError>)
    ensures
        matches_check(r, step_fields_check(model_tab(st@), profile@, key@, step_fields())),
{
    let fields: [&str; 4] = ["name", "in", "out", "cmd"];
    let ghost f = step_fields();
    let mut i: usize = 0;
    assert(f.skip(0) =~= f);
    while i < 4
        invariant
            f == step_fields(),
            fields@.len() == 4,
            forall|j: int| 0 <= j < 4 ==> #[trigger] fields@[j]@ == f[j],
            i <= 4,
            step_fields_check(model_tab(st@), profile@, key@, f) == step_fields_check(
                model_tab(st@),
                profile@,
                key@,
                f.skip(i as int),
            ),
        decreases 4 - i,
    {
        assert(f.skip(i as int).drop_first() =~= f.skip(i + 1));
        assert(f.skip(i as int)[0] == f[i as int]);
        let s = match table_get(st, fields[i]) {
            Some(v) => v.str_or_empty(),
            None => {
                proof {
                    reveal_strlit("");
                }
                ""
            },
        };
        if is_blank(s) {
            let k = profile_key_exec(profile, key);
            let k2 = concat2(k.as_str(), " missing ");
            return invalid(concat2(k2.as_str(), fields[i]));
        }
        i = i + 1;
    }
    Ok(())
}

fn validate_step_key(t: &Vec<(String, TomlValue)>, profile: &str, key: &str) -> (r: Result<(), ConfigError>)
    ensures
        matches_check(
            r,
            match tab_get(model_tab(t@), key@) {
                Some(Toml::Arr(a)) => step_entries_check(a, profile@, key@),
                Some(_) => Err(profile_key(profile@, key@) + " must be an array"@),
                None => Ok(()),
            },
        ),
{
    match table_get(t, key) {
        Some(v) => match v.as_array() {
            Some(arr) => validate_step_entries(arr, profile, key),
            None => {
                let k = profile_key_exec(profile, key);
                invalid(concat2(k.as_str(), " must be an array"))
            },
        },
        None => Ok(()),
    }
}

fn validate_str_keys(t: &Vec<(String, TomlValue)>, profile: &str) -> (r: Result<(), ConfigError>)
    ensures
        matches_check(r, str_keys_check(model_tab(t@), profile@, profile_str_keys())),
{
    let str_keys: [&str; 6] = ["standard", "compiler", "kind", "target", "out_dir", "platform"];
    let ghost sk = profile_str_keys();
    proof {
        reveal_strlit("standard");
        reveal_strlit("compiler");
        reveal_strlit("kind");
        reveal_strlit("target");
        reveal_strlit("out_dir");
        reveal_strlit("platform");
    }
    let mut i: usize = 0;
    assert(sk.skip(0) =~= sk);
    while i < 6
        invariant
            sk == profile_str_keys(),
            forall|j: int| 0 <= j < 6 ==> #[trigger] str_keys@[j]@ == sk[j],
            i <= 6,
            str_keys_check(model_tab(t@), profile@, sk) == str_keys_check(model_tab(t@), profile@, sk.skip(i as int)),
        decreases 6 - i,
    {
        assert(sk.skip(i as int).drop_first() =~= sk.skip(i + 1));
        assert(sk.skip(i as int)[0] == sk[i as int]);
        let r = validate_str_key(t, profile, str_keys[i]);
        if r.is_err() {
            return r;
        }
        i = i + 1;
    }
    Ok(())
}

fn validate_list_keys(t: &Vec<(String, TomlValue)>, profile: &str) -> (r: Result<(), ConfigError>)
    ensures
        matches_check(r, list_keys_check(model_tab(t@), profile@, profile_list_keys())),
{
    let list_keys: [&str; 10] = [
        "cflags",
        "ldflags",
        "exclude",
        "include",
        "roots",
        "pkg_config",
        "generated",
        "expect",
        "clean",
        "targets",
    ];
    let ghost lk = profile_list_keys();
    let mut i: usize = 0;
    assert(lk.skip(0) =~= lk);
    while i < 10
        invariant
            lk == profile_list_keys(),
            forall|j: int| 0 <= j < 10 ==> #[trigger] list_keys@[j]@ == lk[j],
            i <= 10,
            list_keys_check(model_tab(t@), profile@, lk) == list_keys_check(model_tab(t@), profile@, lk.skip(i as int)),
        decreases 10 - i,
    {
        assert(lk.skip(i as int).drop_first() =~= lk.skip(i + 1));
        assert(lk.skip(i as int)[0] == lk[i as int]);
        let r = validate_list_key(t, profile, list_keys[i]);
        if r.is_err() {
            return r;
        }
        i = i + 1;
    }
    Ok(())
}

fn validate_profile_section(profile: &str, t: &Vec<(String, TomlValue)>) -> (r: Result<(), ConfigError>)
    ensures
        matches_check(r, profile_section_check(profile@, model_tab(t@))),
{
    proof {
        reveal_strlit("language");
        reveal_strlit("kind");
        reveal_strlit("src_disable");
    }
    if let Some(lang) = table_get(t, "language") {
        let r = validate_language_value(lang);
        if r.is_err() {
            return r;
        }
    }
    let r = validate_str_keys(t, profile);
    if r.is_err() {
        return r;
    }
    if let Some(v) = table_get(t, "kind") {
        if let Some(k) = v.as_str() {
            let m = profile_key_exec(profile, "kind");
            let m2 = concat2(m.as_str(), " is invalid");
            let r = validate_kind(Some(k), m2.as_str());
            if r.is_err() {
                return r;
            }
        }
    }
    if let Some(v) = table_get(t, "src_disable") {
        if !v.is_bool() {
            let m = profile_key_exec(profile, "src_disable");
            return invalid(concat2(m.as_str(), " must be boolean"));
        }
    }
    let r = validate_list_keys(t, profile);
    if r.is_err() {
        return r;
    }
    proof {
        reveal_strlit("steps");
        reveal_strlit("post_steps");
        let k = profile_step_keys();
        assert(k.drop_first() =~= seq!["post_steps"@]);
        assert(k.drop_first().drop_first() =~= Seq::<Seq<char>>::empty());
        assert(step_keys_check(model_tab(t@), profile@, k.drop_first().drop_first()) == Ok::<(), Seq<char>>(()));
    }
    let r = validate_step_key(t, profile, "steps");
    if r.is_err() {
        return r;
    }
    let r2 = validate_step_key(t, profile, "post_steps");
    proof {
        let k = profile_step_keys();
        let tm = model_tab(t@);
        assert(step_keys_check(tm, profile@, k.drop_first()) == chain(
            match tab_get(tm, "post_steps"@) {
                Some(Toml::Arr(a)) => step_entries_check(a, profile@, "post_steps"@),
                Some(_) => Err(profile_key(profile@, "post_steps"@) + " must be an array"@),
                None => Ok(()),
            },
            step_keys_check(tm, profile@, k.drop_first().drop_first()),
        ));
    }
    r2
}

// ---------------------------------------------------------------------------
// Workspace members
// ---------------------------------------------------------------------------

/// `workspace.<name>`.
pub open spec fn member_key(name: Seq<char>) -> Seq<char> {
    "workspace."@ + name
}

/// The rules of one workspace member.
pub open spec fn member_check(name: Seq<char>, v: Toml) -> Result<(), Seq<char>> {
    match v {
        Toml::Tab(mt) => {
            let path = match tab_get(mt, "path"@) {
                Some(p) => str_or_empty(p),
                None => Seq::empty(),
            };
            if blank(path) {
                Err(member_key(name) + ".path is empty"@)
            } else {
                match tab_get(mt, "deps"@) {
                    Some(Toml::Arr(a)) => items_check(a, member_key(name) + ".deps contains empty value"@),
                    Some(_) => Err(member_key(name) + ".deps must be array"@),
                    None => Ok(()),
                }
            }
        },
        _ => Err(member_key(name) + " must be a table"@),
    }
}

/// The rules of every workspace member, in key order.
pub open spec fn members_check(w: Seq<(Seq<char>, Toml)>) -> Result<(), Seq<char>>
    decreases w.len(),
{
    if w.len() == 0 {
        Ok(())
    } else {
        chain(member_check(w[0].0, w[0].1), members_check(w.drop_first()))
    }
}

/// `[workspace]`: when it is a table, every member follows the rules.
pub open spec fn workspace_check(data: Toml) -> Result<(), Seq<char>> {
    match get_path_spec(data, seq!["workspace"@]) {
        Some(Toml::Tab(w)) => members_check(w),
        _ => Ok(()),
    }
}

fn validate_member(name: &str, v: &TomlValue) -> (r: Result<(), ConfigError>)
    ensures
        matches_check(r, member_check(name@, v.model())),
{
    proof {
        reveal_strlit("path");
        reveal_strlit("deps");
    }
    let mt = match v.as_table() {
        Some(mt) => mt,
        None => {
            let k = concat2("workspace.", name);
            return invalid(concat2(k.as_str(), " must be a table"));
        },
    };
    let path = match table_get(mt, "path") {
        Some(p) => p.str_or_empty(),
        None => {
            proof {
                reveal_strlit("");
            }
            ""
        },
    };
    if is_blank(path) {
        let k = concat2("workspace.", name);
        return invalid(concat2(k.as_str(), ".path is empty"));
    }
    match table_get(mt, "deps") {
        Some(d) => match d.as_array() {
            Some(arr) => {
                let k = concat2("workspace.", name);
                let m = concat2(k.as_str(), ".deps contains empty value");
                validate_items(arr, m.as_str())
            },
            None => {
                let k = concat2("workspace.", name);
                invalid(concat2(k.as_str(), ".deps must be array"))
            },
        },
        None => Ok(()),
    }
}

/// Checks the workspace members of the raw value.
pub fn validate_workspace(data: &TomlValue) -> (r: Result<(), ConfigError>)
    ensures
        matches_check(r, workspace_check(data.model())),
{
    let key: Vec<String> = vec![String::from_str("workspace")];
    proof {
        reveal_strlit("workspace");
        assert(crate::text::views(key@) =~= seq!["workspace"@]);
    }
    let w = match get_path(data, key.as_slice()) {
        Some(v) => match v.as_table() {
            Some(w) => w,
            None => return Ok(()),
        },
        None => return Ok(()),
    };
    let ghost m = model_tab(w@);
    let mut i: usize = 0;
    assert(m.skip(0) =~= m);
    while i < w.len()
        invariant
            m == model_tab(w@),
            i <= w@.len(),
            workspace_check(data.model()) == members_check(m.skip(i as int)),
        decreases w.len() - i,
    {
        assert(m.skip(i as int).drop_first() =~= m.skip(i + 1));
        assert(m.skip(i as int)[0] == (w@[i as int].0@, w@[i as int].1.model()));
        let r = validate_member(w[i].0.as_str(), &w[i].1);
        if r.is_err() {
            return r;
        }
        i = i + 1;
    }
    Ok(())
}

// ---------------------------------------------------------------------------
// The whole manifest
// ---------------------------------------------------------------------------

/// The `[build.<profile>]` section of the raw value, if any.
pub open spec fn profile_section(data: Toml, profile: Seq<char>) -> Option<Toml> {
    match data {
        Toml::Tab(root) => match tab_get(root, "build"@) {
            Some(Toml::Tab(b)) => tab_get(b, profile),
            _ => None,
        },
        _ => None,
    }
}

/// A profile section, when present, is a table that follows the rules.
pub open spec fn profile_check(data: Toml, profile: Seq<char>) -> Result<(), Seq<char>> {
    match profile_section(data, profile) {
        Some(Toml::Tab(t)) => profile_section_check(profile, t),
        Some(_) => Err("build."@ + profile + " must be a table"@),
        None => Ok(()),
    }
}

/// The rules on `[package]`, `[build]`, `[toolchain]`, the profile sections
/// and the workspace, for a manifest that describes a package.
pub open spec fn package_rules(data: Toml, typed: DcrConfig, pkg: PackageConfig, b: BuildConfig) -> Result<(), Seq<char>> {
    let name_blank = if blank(pkg.name@) {
        Err("package.name is empty"@)
    } else {
        Ok(())
    };
    let version_blank = if blank(pkg.version@) {
        Err("package.version is empty"@)
    } else {
        Ok(())
    };
    let pkg_type = match pkg.pkg_type {
        Some(t) => {
            let tt = trim(t@);
            if tt.len() > 0 && tt != "lib"@ && tt != "app"@ && tt != "none"@ {
                Err("package.type must be 'lib', 'app', or 'none'"@)
            } else {
                Ok(())
            }
        },
        None => Ok(()),
    };
    let standard = match b.standard {
        Some(s) => if blank(s@) && !lang_is_asm(b.language) {
            Err("build.standard is empty"@)
        } else {
            Ok(())
        },
        None => Ok(()),
    };
    let compiler = if blank(b.compiler@) {
        Err("build.compiler is empty"@)
    } else {
        Ok(())
    };
    let platform = match b.platform {
        Some(p) => if blank(p@) {
            Err("build.platform is empty"@)
        } else {
            Ok(())
        },
        None => Ok(()),
    };
    let kind = kind_check(
        match b.kind {
            Some(k) => Some(k@),
            None => None,
        },
        "build.kind is invalid"@,
    );
    let lists = chain(
        list_check(views_of(b.exclude), "build.exclude"@),
        chain(
            list_check(views_of(b.includes), "build.include"@),
            chain(
                list_check(views_of(b.roots), "build.roots"@),
                chain(
                    list_check(views_of(b.clean), "build.clean"@),
                    chain(
                        list_check(views_of(b.cflags), "build.cflags"@),
                        list_check(views_of(b.ldflags), "build.ldflags"@),
                    ),
                ),
            ),
        ),
    );
    chain(
        name_blank,
        chain(
            version_blank,
            chain(
                package_name_check(pkg.name@),
                chain(
                    pkg_type,
                    chain(
                        language_config_check(b.language, "build.language"@),
                        chain(
                            standard,
                            chain(
                                compiler,
                                chain(
                                    platform,
                                    chain(
                                        toolchain_check(typed.toolchain),
                                        chain(
                                            kind,
                                            chain(
                                                lists,
                                                chain(
                                                    opt_check(b.target, "build.target"@),
                                                    chain(
                                                        opt_check(b.out_dir, "build.out_dir"@),
                                                        chain(
                                                            profile_check(data, "release"@),
                                                            chain(profile_check(data, "debug"@), workspace_check(data)),
                                                        ),
                                                    ),
                                                ),
                                            ),
                                        ),
                                    ),
                                ),
                            ),
                        ),
                    ),
                ),
            ),
        ),
    )
}

/// The views of a list of strings.
pub open spec fn views_of(v: Vec<String>) -> Seq<Seq<char>> {
    crate::text::views(v@)
}

/// The rules of a manifest. A workspace-only manifest is checked for its
/// workspace alone; otherwise `[package]` and `[build]` are required.
pub open spec fn validate_spec(data: Toml, typed: DcrConfig) -> Result<(), Seq<char>> {
    if is_workspace_only_spec(typed) {
        workspace_check(data)
    } else {
        match typed.package {
            None => Err("missing [package] section (required)"@),
            Some(pkg) => match typed.build {
                None => Err("missing [build] section (required)"@),
                Some(b) => if b.workspace_only {
                    workspace_check(data)
                } else {
                    package_rules(data, typed, pkg, b)
                },
            },
        }
    }
}

fn validate_profile(data: &TomlValue, profile: &str) -> (r: Result<(), ConfigError>)
    ensures
        matches_check(r, profile_check(data.model(), profile@)),
{
    proof {
        reveal_strlit("build");
    }
    let root = match data.as_table() {
        Some(root) => root,
        None => return Ok(()),
    };
    let b = match table_get(root, "build") {
        Some(b) => match b.as_table() {
            Some(b) => b,
            None => return Ok(()),
        },
        None => return Ok(()),
    };
    match table_get(b, profile) {
        Some(section) => match section.as_table() {
            Some(t) => validate_profile_section(profile, t),
            None => {
                let m = concat3("build.", profile, " must be a table");
                invalid(m)
            },
        },
        None => Ok(()),
    }
}

fn validate_package(data: &TomlValue, typed: &DcrConfig, pkg: &PackageConfig, b: &BuildConfig) -> (r: Result<
    (),
    ConfigError,
>)
    ensures
        matches_check(r, package_rules(data.model(), *typed, *pkg, *b)),
{
    if is_blank(pkg.name.as_str()) {
        return invalid(String::from_str("package.name is empty"));
    }
    if is_blank(pkg.version.as_str()) {
        return invalid(String::from_str("package.version is empty"));
    }
    let r = validate_package_name(pkg.name.as_str());
    if r.is_err() {
        return r;
    }
    if let Some(t) = &pkg.pkg_type {
        let tt = trim_exec(t.as_str());
        let s = tt.as_str();
        if !s.is_empty() && !str_eq(s, "lib") && !str_eq(s, "app") && !str_eq(s, "none") {
            return invalid(String::from_str("package.type must be 'lib', 'app', or 'none'"));
        }
    }
    let r = validate_language_config(&b.language, "build.language");
    if r.is_err() {
        return r;
    }
    if let Some(s) = &b.standard {
        if is_blank(s.as_str()) && !lang_is_asm_exec(&b.language) {
            return invalid(String::from_str("build.standard is empty"));
        }
    }
    if is_blank(b.compiler.as_str()) {
        return invalid(String::from_str("build.compiler is empty"));
    }
    if let Some(p) = &b.platform {
        if is_blank(p.as_str()) {
            return invalid(String::from_str("build.platform is empty"));
        }
    }
    let r = validate_toolchain(&typed.toolchain);
    if r.is_err() {
        return r;
    }
    let r = validate_kind(opt_str(&b.kind), "build.kind is invalid");
    if r.is_err() {
        return r;
    }
    let r = validate_string_list(b.exclude.as_slice(), "build.exclude");
    if r.is_err() {
        return r;
    }
    let r = validate_string_list(b.includes.as_slice(), "build.include");
    if r.is_err() {
        return r;
    }
    let r = validate_string_list(b.roots.as_slice(), "build.roots");
    if r.is_err() {
        return r;
    }
    let r = validate_string_list(b.clean.as_slice(), "build.clean");
    if r.is_err() {
        return r;
    }
    let r = validate_string_list(b.cflags.as_slice(), "build.cflags");
    if r.is_err() {
        return r;
    }
    let r = validate_string_list(b.ldflags.as_slice(), "build.ldflags");
    if r.is_err() {
        return r;
    }
    let r = validate_opt(&b.target, "build.target");
    if r.is_err() {
        return r;
    }
    let r = validate_opt(&b.out_dir, "build.out_dir");
    if r.is_err() {
        return r;
    }
    let r = validate_profile(data, "release");
    if r.is_err() {
        return r;
    }
    let r = validate_profile(data, "debug");
    if r.is_err() {
        return r;
    }
    validate_workspace(data)
}

/// Checks a manifest: its raw value and the typed sections read from it.
pub fn validate(data: &TomlValue, typed: &DcrConfig) -> (r: Result<(), ConfigError>)
    ensures
        matches_check(r, validate_spec(data.model(), *typed)),
{
    let workspace_only = match &typed.build {
        Some(b) => b.workspace_only && typed.workspace.len() > 0,
        None => false,
    };
    if workspace_only {
        return validate_workspace(data);
    }
    let pkg = match &typed.package {
        Some(p) => p,
        None => return invalid(String::from_str("missing [package] section (required)")),
    };
    let b = match &typed.build {
        Some(b) => b,
        None => return invalid(String::from_str("missing [build] section (required)")),
    };
    if b.workspace_only {
        return validate_workspace(data);
    }
    validate_package(data, typed, pkg, b)
}

} // verus!
