//! Dependency declarations: what kind of source a dependency names, where its
//! headers and libraries are, and the lock file that records them.
use vstd::prelude::*;

use crate::paths::{file_name, join, join_exec, spans, spans_exec};
use crate::text::{
    chars_of, concat2, concat3, has_char, has_char_exec, has_prefix, push_str_item, replace_all, replace_exec,
    starts_with, str_eq, string_of, trim, trim_exec, views, lower,
};
use crate::value::{model_arr, model_tab, str_or_empty, tab_get, table_get, toml_str, Toml, TomlValue};

verus! {

// ---------------------------------------------------------------------------
// Kinds of dependency strings
// ---------------------------------------------------------------------------

/// A string that names a local path.
pub open spec fn is_path_like(raw: Seq<char>) -> bool {
    ||| has_prefix(raw, "path:"@)
    ||| has_prefix(raw, "./"@)
    ||| has_prefix(raw, "../"@)
    ||| has_prefix(raw, "/"@)
    ||| has_prefix(raw, "~/"@)
    ||| has_char(raw, '\\')
}

/// A string that names a git or remote source.
pub open spec fn is_git_like(raw: Seq<char>) -> bool {
    ||| has_prefix(raw, "git:"@)
    ||| has_prefix(raw, "github:"@)
    ||| has_prefix(raw, "gitlab:"@)
    ||| has_prefix(raw, "http://"@)
    ||| has_prefix(raw, "https://"@)
    ||| has_prefix(raw, "git@"@)
}

/// Whether a dependency string names a local path.
pub fn is_path_like_string(raw: &str) -> (r: bool)
    ensures
        r == is_path_like(raw@),
{
    starts_with(raw, "path:") || starts_with(raw, "./") || starts_with(raw, "../") || starts_with(raw, "/")
        || starts_with(raw, "~/") || has_char_exec(raw, '\\')
}

/// Whether a dependency string names a git or remote source.
pub fn is_git_like_string(raw: &str) -> (r: bool)
    ensures
        r == is_git_like(raw@),
{
    starts_with(raw, "git:") || starts_with(raw, "github:") || starts_with(raw, "gitlab:") || starts_with(
        raw,
        "http://",
    ) || starts_with(raw, "https://") || starts_with(raw, "git@")
}

/// The table has an entry with key `k`.
pub open spec fn has_key(t: Seq<(Seq<char>, Toml)>, k: Seq<char>) -> bool {
    tab_get(t, k) is Some
}

/// A registry dependency: a version string that is neither a path nor a git
/// source, or a table with registry settings and no source key.
pub open spec fn is_registry_dep_spec(v: Toml) -> bool {
    match v {
        Toml::Str(s) => !is_path_like(trim(s)) && !is_git_like(trim(s)),
        Toml::Tab(t) => !(has_key(t, "git"@) || has_key(t, "path"@) || has_key(t, "url"@)) && (has_key(
            t,
            "version"@,
        ) || has_key(t, "features"@) || has_key(t, "optional"@) || has_key(t, "registry"@)),
        _ => false,
    }
}

/// Whether a dependency value is resolved from the registry.
pub fn is_registry_dep(value: &TomlValue) -> (r: bool)
    ensures
        r == is_registry_dep_spec(value.model()),
{
    if let Some(raw) = value.as_str() {
        let t = trim_exec(raw);
        return !is_path_like_string(t.as_str()) && !is_git_like_string(t.as_str());
    }
    match value.as_table() {
        Some(table) => {
            if table_get(table, "git").is_some() || table_get(table, "path").is_some() || table_get(
                table,
                "url",
            ).is_some() {
                return false;
            }
            table_get(table, "version").is_some() || table_get(table, "features").is_some() || table_get(
                table,
                "optional",
            ).is_some() || table_get(table, "registry").is_some()
        },
        None => false,
    }
}

/// The path of a string dependency: after `path:`, or the whole trimmed
/// string when it looks like a path.
pub open spec fn path_from_string_dep_spec(v: Toml) -> Option<Seq<char>> {
    match toml_str(v) {
        Some(s) => {
            let r = trim(s);
            if has_prefix(r, "path:"@) {
                Some(r.skip(5))
            } else if is_path_like(r) {
                Some(r)
            } else {
                None
            }
        },
        None => None,
    }
}

/// The path named by a string dependency.
pub fn path_from_string_dep(value: &TomlValue) -> (r: Option<String>)
    ensures
        match r {
            Some(p) => path_from_string_dep_spec(value.model()) == Some(p@),
            None => path_from_string_dep_spec(value.model()) is None,
        },
{
    let raw = match value.as_str() {
        Some(s) => s,
        None => return None,
    };
    let r = trim_exec(raw);
    if starts_with(r.as_str(), "path:") {
        proof {
            reveal_strlit("path:");
        }
        let v = chars_of(r.as_str());
        let w = crate::paths::sub_chars(&v, 5, v.len());
        assert(w@ =~= r@.skip(5));
        return Some(string_of(&w));
    }
    if is_path_like_string(r.as_str()) {
        return Some(r);
    }
    None
}

/// The path of a path dependency: the `path` entry of a table, or the path
/// named by a string.
pub open spec fn path_dep_path_spec(v: Toml) -> Option<Seq<char>> {
    match v {
        Toml::Tab(t) => match tab_get(t, "path"@) {
            Some(Toml::Str(p)) => Some(p),
            _ => None,
        },
        _ => path_from_string_dep_spec(v),
    }
}

/// The path of a path dependency, if the value names one.
pub fn path_dep_path(value: &TomlValue) -> (r: Option<String>)
    ensures
        match r {
            Some(p) => path_dep_path_spec(value.model()) == Some(p@),
            None => path_dep_path_spec(value.model()) is None,
        },
{
    match value.as_table() {
        Some(t) => match table_get(t, "path") {
            Some(p) => match p.as_str() {
                Some(s) => Some(String::from_str(s)),
                None => None,
            },
            None => None,
        },
        None => path_from_string_dep(value),
    }
}

/// A git dependency: its URL and the optional version and ref settings.
#[derive(Debug)]
pub struct GitDep {
    pub url: String,
    pub version: Option<String>,
    pub branch: Option<String>,
    pub tag: Option<String>,
    pub rev: Option<String>,
}

/// The string entry `k` of a table, if it is a string.
pub open spec fn str_entry(t: Seq<(Seq<char>, Toml)>, k: Seq<char>) -> Option<Seq<char>> {
    match tab_get(t, k) {
        Some(Toml::Str(s)) => Some(s),
        _ => None,
    }
}

/// An optional string as text.
pub open spec fn opt_string_view(o: Option<String>) -> Option<Seq<char>> {
    match o {
        Some(s) => Some(s@),
        None => None,
    }
}

fn str_entry_exec(t: &Vec<(String, TomlValue)>, k: &str) -> (r: Option<String>)
    ensures
        opt_string_view(r) == str_entry(model_tab(t@), k@),
{
    match table_get(t, k) {
        Some(v) => match v.as_str() {
            Some(s) => Some(String::from_str(s)),
            None => None,
        },
        None => None,
    }
}

/// A table with a string `git` entry describes a git dependency.
pub fn git_dep(value: &TomlValue) -> (r: Option<GitDep>)
    ensures
        match r {
            Some(g) => match value.model() {
                Toml::Tab(t) => str_entry(t, "git"@) == Some(g.url@) && opt_string_view(g.version) == str_entry(
                    t,
                    "version"@,
                ) && opt_string_view(g.branch) == str_entry(t, "branch"@) && opt_string_view(g.tag)
                    == str_entry(t, "tag"@) && opt_string_view(g.rev) == str_entry(t, "rev"@),
                _ => false,
            },
            None => !(value.model() matches Toml::Tab(t) && str_entry(t, "git"@) is Some),
        },
{
    let table = match value.as_table() {
        Some(t) => t,
        None => return None,
    };
    let url = match str_entry_exec(table, "git") {
        Some(u) => u,
        None => return None,
    };
    Some(
        GitDep {
            url,
            version: str_entry_exec(table, "version"),
            branch: str_entry_exec(table, "branch"),
            tag: str_entry_exec(table, "tag"),
            rev: str_entry_exec(table, "rev"),
        },
    )
}

/// The entry `k` is a non-empty array.
pub open spec fn non_empty_array_entry(t: Seq<(Seq<char>, Toml)>, k: Seq<char>) -> bool {
    match tab_get(t, k) {
        Some(Toml::Arr(a)) => a.len() > 0,
        _ => false,
    }
}

/// A table that lists `include`, `lib` and `libs`, each a non-empty array.
pub open spec fn complete_prebuilt_layout(v: Toml) -> bool {
    match v {
        Toml::Tab(t) => non_empty_array_entry(t, "include"@) && non_empty_array_entry(t, "lib"@)
            && non_empty_array_entry(t, "libs"@),
        _ => false,
    }
}

fn non_empty_array_entry_exec(t: &Vec<(String, TomlValue)>, k: &str) -> (r: bool)
    ensures
        r == non_empty_array_entry(model_tab(t@), k@),
{
    match table_get(t, k) {
        Some(v) => match v.as_array() {
            Some(a) => a.len() > 0,
            None => false,
        },
        None => false,
    }
}

/// Whether a dependency without a manifest fully describes a prebuilt library.
pub fn has_complete_prebuilt_layout(value: &TomlValue) -> (r: bool)
    ensures
        r == complete_prebuilt_layout(value.model()),
{
    match value.as_table() {
        Some(t) => non_empty_array_entry_exec(t, "include") && non_empty_array_entry_exec(t, "lib")
            && non_empty_array_entry_exec(t, "libs"),
        None => false,
    }
}

/// The message for a `mode` that is not `build` or `prebuild`.
pub open spec fn bad_mode_message(name: Seq<char>) -> Seq<char> {
    "Dependency `"@ + name + "` field `mode` must be \"build\" or \"prebuild\""@
}

/// Whether the dependency is built as a DCR package: by default when it has a
/// manifest; `mode = "build"` requires a manifest, `mode = "prebuild"` never
/// builds; any other mode is an error.
pub open spec fn use_dcr_package_spec(v: Toml, has_manifest: bool, name: Seq<char>) -> Result<bool, Seq<char>> {
    let mode = match v {
        Toml::Tab(t) => tab_get(t, "mode"@),
        _ => None,
    };
    match mode {
        None => Ok(has_manifest),
        Some(Toml::Str(m)) => if m == "build"@ {
            if has_manifest {
                Ok(true)
            } else {
                Err("Dependency `"@ + name + "` uses mode = \"build\" but has no dcr.toml"@)
            }
        } else if m == "prebuild"@ {
            Ok(false)
        } else {
            Err(bad_mode_message(name))
        },
        Some(_) => Err(bad_mode_message(name)),
    }
}

fn bad_mode(name: &str) -> (r: String)
    ensures
        r@ == bad_mode_message(name@),
{
    concat3("Dependency `", name, "` field `mode` must be \"build\" or \"prebuild\"")
}

/// Decides whether a dependency is built as a DCR package.
pub fn use_dcr_package(value: &TomlValue, has_manifest: bool, dependency_name: &str) -> (r: Result<bool, String>)
    ensures
        match use_dcr_package_spec(value.model(), has_manifest, dependency_name@) {
            Ok(b) => r == Ok::<bool, String>(b),
            Err(m) => r is Err && r->Err_0@ == m,
        },
{
    let mode = match value.as_table() {
        Some(t) => table_get(t, "mode"),
        None => None,
    };
    match mode {
        None => Ok(has_manifest),
        Some(m) => match m.as_str() {
            Some(s) => {
                if str_eq(s, "build") {
                    if has_manifest {
                        Ok(true)
                    } else {
                        Err(concat3("Dependency `", dependency_name, "` uses mode = \"build\" but has no dcr.toml"))
                    }
                } else if str_eq(s, "prebuild") {
                    Ok(false)
                } else {
                    Err(bad_mode(dependency_name))
                }
            },
            None => Err(bad_mode(dependency_name)),
        },
    }
}

// ---------------------------------------------------------------------------
// Resolved search paths
// ---------------------------------------------------------------------------

/// Header directories, library directories, library names and the roots of
/// dependencies built as DCR packages.
#[derive(Debug)]
pub struct ResolvedDeps {
    pub include_dirs: Vec<String>,
    pub lib_dirs: Vec<String>,
    pub libs: Vec<String>,
    pub package_roots: Vec<String>,
}

/// `paths` with `p` added unless it is already there.
pub open spec fn push_unique_spec(paths: Seq<Seq<char>>, p: Seq<char>) -> Seq<Seq<char>> {
    if paths.contains(p) {
        paths
    } else {
        paths.push(p)
    }
}

/// Adds a path once, keeping the search order.
pub fn push_unique_path(paths: &mut Vec<String>, path: String)
    ensures
        views(final(paths)@) == push_unique_spec(views(old(paths)@), path@),
{
    let ghost v0 = views(paths@);
    let mut i: usize = 0;
    while i < paths.len()
        invariant
            v0 == views(paths@),
            i <= paths@.len(),
            forall|j: int| 0 <= j < i ==> v0[j] != path@,
        decreases paths.len() - i,
    {
        if str_eq(paths[i].as_str(), path.as_str()) {
            assert(v0[i as int] == path@);
            assert(v0.contains(path@));
            return;
        }
        i = i + 1;
    }
    assert(!v0.contains(path@));
    let ghost before = paths@;
    paths.push(path);
    assert(views(paths@) =~= views(before).push(path@));
}

/// `<root>/target/include`.
pub open spec fn registry_include_dir_spec(dep_root: Seq<char>) -> Seq<char> {
    join(join(dep_root, "target"@), "include"@)
}

/// `<root>/target/lib`.
pub open spec fn registry_lib_dir_spec(dep_root: Seq<char>) -> Seq<char> {
    join(join(dep_root, "target"@), "lib"@)
}

/// The header directory of a packaged dependency.
pub fn registry_include_dir(dep_root: &str) -> (r: String)
    ensures
        r@ == registry_include_dir_spec(dep_root@),
{
    let t = join_exec(dep_root, "target");
    join_exec(t.as_str(), "include")
}

/// The library directory of a packaged dependency.
pub fn registry_lib_dir(dep_root: &str) -> (r: String)
    ensures
        r@ == registry_lib_dir_spec(dep_root@),
{
    let t = join_exec(dep_root, "target");
    join_exec(t.as_str(), "lib")
}

/// Adds the packaged output directories of a dependency, each once.
pub fn push_package_output_dirs(resolved: &mut ResolvedDeps, dep_root: &str)
    ensures
        views(final(resolved).include_dirs@) == push_unique_spec(
            views(old(resolved).include_dirs@),
            registry_include_dir_spec(dep_root@),
        ),
        views(final(resolved).lib_dirs@) == push_unique_spec(views(old(resolved).lib_dirs@), registry_lib_dir_spec(dep_root@)),
        final(resolved).libs@ == old(resolved).libs@,
        final(resolved).package_roots@ == old(resolved).package_roots@,
{
    push_unique_path(&mut resolved.include_dirs, registry_include_dir(dep_root));
    push_unique_path(&mut resolved.lib_dirs, registry_lib_dir(dep_root));
}

/// The strings of an array, skipping items that are not strings.
pub open spec fn array_strings(a: Seq<Toml>) -> Seq<Seq<char>>
    decreases a.len(),
{
    if a.len() == 0 {
        Seq::empty()
    } else {
        let rest = array_strings(a.drop_first());
        match a[0] {
            Toml::Str(s) => seq![s] + rest,
            _ => rest,
        }
    }
}

/// Each path joined onto `root`.
pub open spec fn joined_all(root: Seq<char>, paths: Seq<Seq<char>>) -> Seq<Seq<char>> {
    paths.map_values(|p: Seq<char>| join(root, p))
}

fn array_strings_exec(a: &Vec<TomlValue>) -> (r: Vec<String>)
    ensures
        views(r@) == array_strings(model_arr(a@)),
{
    let ghost m = model_arr(a@);
    let mut out: Vec<String> = Vec::new();
    let mut i: usize = a.len();
    assert(m.skip(m.len() as int) =~= Seq::<Toml>::empty());
    while i > 0
        invariant
            m == model_arr(a@),
            i <= a@.len(),
            views(out@) == array_strings(m.skip(i as int)),
        decreases i,
    {
        assert(m.skip(i - 1).drop_first() =~= m.skip(i as int));
        assert(m.skip(i - 1)[0] == a@[i - 1].model());
        if let Some(s) = a[i - 1].as_str() {
            let ghost before = out@;
            out.insert(0, String::from_str(s));
            assert(views(out@) =~= seq![s@] + views(before));
        }
        i = i - 1;
    }
    assert(m.skip(0) =~= m);
    out
}

/// Adds each of `items` joined onto `root`.
pub fn push_joined(dest: &mut Vec<String>, root: &str, items: &Vec<String>)
    ensures
        views(final(dest)@) == views(old(dest)@) + joined_all(root@, views(items@)),
{
    let ghost d0 = views(dest@);
    let mut i: usize = 0;
    while i < items.len()
        invariant
            i <= items@.len(),
            views(dest@) == d0 + joined_all(root@, views(items@)).take(i as int),
        decreases items.len() - i,
    {
        let ghost before = dest@;
        let p = join_exec(root, items[i].as_str());
        dest.push(p);
        assert(views(dest@) =~= views(before).push(p@));
        assert(joined_all(root@, views(items@)).take(i + 1) =~= joined_all(root@, views(items@)).take(i as int).push(
            join(root@, items@[i as int]@),
        ));
        i = i + 1;
    }
    assert(joined_all(root@, views(items@)).take(items@.len() as int) =~= joined_all(root@, views(items@)));
}

/// The strings of the array entry `k`, when the entry is an array.
pub open spec fn array_entry(t: Seq<(Seq<char>, Toml)>, k: Seq<char>) -> Option<Seq<Seq<char>>> {
    match tab_get(t, k) {
        Some(Toml::Arr(a)) => Some(array_strings(a)),
        _ => None,
    }
}

fn array_entry_exec(t: &Vec<(String, TomlValue)>, k: &str) -> (r: Option<Vec<String>>)
    ensures
        match r {
            Some(v) => array_entry(model_tab(t@), k@) == Some(views(v@)),
            None => array_entry(model_tab(t@), k@) is None,
        },
{
    match table_get(t, k) {
        Some(v) => match v.as_array() {
            Some(a) => Some(array_strings_exec(a)),
            None => None,
        },
        None => None,
    }
}

/// Adds the explicitly listed header and library directories (joined onto the
/// dependency root) and library names; reports which of the three lists were
/// given.
pub fn push_explicit_layout(resolved: &mut ResolvedDeps, dep_root: &str, table: &Vec<(String, TomlValue)>) -> (r: (
    bool,
    bool,
    bool,
))
    ensures
        r.0 == array_entry(model_tab(table@), "include"@) is Some,
        r.1 == array_entry(model_tab(table@), "lib"@) is Some,
        r.2 == array_entry(model_tab(table@), "libs"@) is Some,
        views(final(resolved).include_dirs@) == views(old(resolved).include_dirs@) + match array_entry(
            model_tab(table@),
            "include"@,
        ) {
            Some(v) => joined_all(dep_root@, v),
            None => Seq::empty(),
        },
        views(final(resolved).lib_dirs@) == views(old(resolved).lib_dirs@) + match array_entry(
            model_tab(table@),
            "lib"@,
        ) {
            Some(v) => joined_all(dep_root@, v),
            None => Seq::empty(),
        },
        views(final(resolved).libs@) == views(old(resolved).libs@) + match array_entry(model_tab(table@), "libs"@) {
            Some(v) => v,
            None => Seq::empty(),
        },
        final(resolved).package_roots@ == old(resolved).package_roots@,
{
    let mut has_include = false;
    let mut has_lib = false;
    let mut has_libs = false;
    let ghost i0 = views(resolved.include_dirs@);
    let ghost l0 = views(resolved.lib_dirs@);
    let ghost n0 = views(resolved.libs@);
    if let Some(items) = array_entry_exec(table, "include") {
        has_include = true;
        push_joined(&mut resolved.include_dirs, dep_root, &items);
    } else {
        assert(views(resolved.include_dirs@) =~= i0 + Seq::<Seq<char>>::empty());
    }
    if let Some(items) = array_entry_exec(table, "lib") {
        has_lib = true;
        push_joined(&mut resolved.lib_dirs, dep_root, &items);
    } else {
        assert(views(resolved.lib_dirs@) =~= l0 + Seq::<Seq<char>>::empty());
    }
    if let Some(items) = array_entry_exec(table, "libs") {
        has_libs = true;
        let ghost before = resolved.libs@;
        crate::text::extend_strings(&mut resolved.libs, items.as_slice());
    } else {
        assert(views(resolved.libs@) =~= n0 + Seq::<Seq<char>>::empty());
    }
    (has_include, has_lib, has_libs)
}

// ---------------------------------------------------------------------------
// Registry paths
// ---------------------------------------------------------------------------

/// A registry path: one that is used as it is, or one relative to the
/// registry cache directory.
#[derive(Debug)]
pub enum RegistryPath {
    Absolute(String),
    CacheRelative(String),
}

/// An ASCII character (one byte in UTF-8).
pub open spec fn is_ascii_char(c: char) -> bool {
    (c as u32) < 128
}

/// The first bytes are `/`, one byte, `:` (`/C:` style).
pub open spec fn slash_drive(s: Seq<char>) -> bool {
    s.len() >= 3 && s[0] == '/' && is_ascii_char(s[1]) && s[2] == ':'
}

/// The second byte is `:` (`C:` style).
pub open spec fn drive(s: Seq<char>) -> bool {
    s.len() >= 2 && is_ascii_char(s[0]) && s[1] == ':'
}

/// `s` without `//?/` or `//./` in front.
pub open spec fn strip_extended(s: Seq<char>) -> Seq<char> {
    if has_prefix(s, "//?/"@) {
        s.skip(4)
    } else if has_prefix(s, "//./"@) {
        s.skip(4)
    } else {
        s
    }
}

/// How a raw registry path is read. A `file://` URL gives the path after it
/// (without the slash before a drive letter, with a leading `/` added to a
/// relative rest). Otherwise backslashes become slashes, the Windows extended
/// prefixes and a slash before a drive letter are removed, and the path is
/// used as it is when it is absolute or has a drive letter; else it is
/// relative to the registry cache.
pub open spec fn registry_path_spec(raw: Seq<char>) -> (bool, Seq<char>) {
    let s = trim(raw);
    if has_prefix(s, "file://"@) {
        let rest = s.skip(7);
        if slash_drive(rest) {
            (true, rest.skip(1))
        } else if drive(rest) {
            (true, rest)
        } else if has_prefix(rest, "/"@) {
            (true, rest)
        } else {
            (true, "/"@ + rest)
        }
    } else {
        let s1 = strip_extended(replace_all(s, "\\"@, "/"@));
        let s2 = if slash_drive(s1) {
            s1.skip(1)
        } else {
            s1
        };
        if has_prefix(s2, "/"@) || drive(s2) {
            (true, s2)
        } else {
            (false, s2)
        }
    }
}

/// The view of a registry path: whether it is used as it is, and its text.
pub open spec fn registry_path_view(p: RegistryPath) -> (bool, Seq<char>) {
    match p {
        RegistryPath::Absolute(s) => (true, s@),
        RegistryPath::CacheRelative(s) => (false, s@),
    }
}

fn skip_chars(s: &str, n: usize) -> (r: String)
    requires
        n <= s@.len(),
    ensures
        r@ == s@.skip(n as int),
{
    let v = chars_of(s);
    let w = crate::paths::sub_chars(&v, n, v.len());
    assert(w@ =~= s@.skip(n as int));
    string_of(&w)
}

fn slash_drive_exec(s: &str) -> (r: bool)
    ensures
        r == slash_drive(s@),
{
    let v = chars_of(s);
    v.len() >= 3 && v[0] == '/' && (v[1] as u32) < 128 && v[2] == ':'
}

fn drive_exec(s: &str) -> (r: bool)
    ensures
        r == drive(s@),
{
    let v = chars_of(s);
    v.len() >= 2 && (v[0] as u32) < 128 && v[1] == ':'
}

/// Reads a raw registry path.
pub fn registry_path_to_pathbuf(raw: &str) -> (r: RegistryPath)
    ensures
        registry_path_view(r) == registry_path_spec(raw@),
{
    proof {
        reveal_strlit("file://");
        reveal_strlit("//?/");
        reveal_strlit("//./");
        reveal_strlit("/");
        reveal_strlit("\\");
    }
    let s = trim_exec(raw);
    if starts_with(s.as_str(), "file://") {
        let rest = skip_chars(s.as_str(), 7);
        if slash_drive_exec(rest.as_str()) {
            return RegistryPath::Absolute(skip_chars(rest.as_str(), 1));
        }
        if drive_exec(rest.as_str()) {
            return RegistryPath::Absolute(rest);
        }
        if starts_with(rest.as_str(), "/") {
            return RegistryPath::Absolute(rest);
        }
        return RegistryPath::Absolute(concat2("/", rest.as_str()));
    }
    let s0 = replace_exec(s.as_str(), "\\", "/");
    let s1 = if starts_with(s0.as_str(), "//?/") {
        skip_chars(s0.as_str(), 4)
    } else if starts_with(s0.as_str(), "//./") {
        skip_chars(s0.as_str(), 4)
    } else {
        s0
    };
    let s2 = if slash_drive_exec(s1.as_str()) {
        skip_chars(s1.as_str(), 1)
    } else {
        s1
    };
    if starts_with(s2.as_str(), "/") || drive_exec(s2.as_str()) {
        RegistryPath::Absolute(s2)
    } else {
        RegistryPath::CacheRelative(s2)
    }
}

impl RegistryPath {
    /// The path itself, with a cache-relative path placed under `cache_root`.
    pub fn under(&self, cache_root: &str) -> (r: String)
        ensures
            r@ == match registry_path_view(*self) {
                (true, p) => p,
                (false, p) => join(cache_root@, p),
            },
    {
        match self {
            RegistryPath::Absolute(p) => p.clone(),
            RegistryPath::CacheRelative(p) => join_exec(cache_root, p.as_str()),
        }
    }
}

/// The registry path of a package entry, refused when it is missing or blank.
pub open spec fn registry_package_path_spec(raw: Option<Seq<char>>) -> Result<(bool, Seq<char>), Seq<char>> {
    match raw {
        None => Err("Registry package is missing path"@),
        Some(p) => if trim(p).len() == 0 {
            Err("Registry package path is empty"@)
        } else {
            Ok(registry_path_spec(trim(p)))
        },
    }
}

/// Reads the `path` of a registry package entry.
pub fn registry_package_path(raw: Option<&str>) -> (r: Result<RegistryPath, String>)
    ensures
        match registry_package_path_spec(crate::platform::opt_view(raw)) {
            Ok(v) => r is Ok && registry_path_view(r->Ok_0) == v,
            Err(m) => r is Err && r->Err_0@ == m,
        },
{
    let p = match raw {
        Some(p) => p,
        None => return Err(String::from_str("Registry package is missing path")),
    };
    let t = trim_exec(p);
    if t.as_str().is_empty() {
        return Err(String::from_str("Registry package path is empty"));
    }
    Ok(registry_path_to_pathbuf(t.as_str()))
}

/// The parent of a path whose last component is a named one: the text up to
/// the end of the component before it, else the leading `/` or `.`, else empty.
pub open spec fn parent_of_named(s: Seq<char>) -> Seq<char> {
    let sp = spans(s);
    if sp.len() >= 2 {
        s.subrange(0, sp[sp.len() - 2].1)
    } else if crate::paths::is_absolute(s) {
        "/"@
    } else if crate::paths::leads_with_cur_dir(s) {
        "."@
    } else {
        Seq::empty()
    }
}

/// The package root for a registry path: the directory of a `dcr.toml`
/// manifest path, or the path itself.
pub open spec fn package_root_spec(full: Seq<char>) -> Seq<char> {
    if file_name(full) == Some("dcr.toml"@) {
        parent_of_named(full)
    } else {
        full
    }
}

/// The root of a registry package given its full path.
pub fn package_root_of(full: &str) -> (r: String)
    ensures
        r@ == package_root_spec(full@),
{
    let name = crate::paths::file_name_exec(full);
    let is_manifest = match &name {
        Some(n) => str_eq(n.as_str(), "dcr.toml"),
        None => false,
    };
    if !is_manifest {
        return String::from_str(full);
    }
    let v = chars_of(full);
    let sp = spans_exec(&v);
    proof {
        crate::paths::lemma_spans_wf(full@);
    }
    if sp.len() >= 2 {
        let (_, e) = sp[sp.len() - 2];
        assert(spans(full@)[sp@.len() - 2] == (sp@[sp@.len() - 2].0 as int, e as int));
        let w = crate::paths::sub_chars(&v, 0, e);
        return string_of(&w);
    }
    if crate::paths::is_absolute_exec(full) {
        return String::from_str("/");
    }
    if v.len() > 0 && v[0] == '.' && (v.len() == 1 || v[1] == '/') {
        return String::from_str(".");
    }
    String::new()
}

// ---------------------------------------------------------------------------
// Lock file
// ---------------------------------------------------------------------------

/// One locked dependency.
#[derive(Debug)]
pub struct DepLock {
    pub name: String,
    pub version: String,
    pub checksum: String,
    pub source: String,
}

/// A value quoted for the lock file: `\` and `"` escaped.
pub open spec fn escape_spec(s: Seq<char>) -> Seq<char> {
    replace_all(replace_all(s, "\\"@, "\\\\"@), "\""@, "\\\""@)
}

/// Escapes `\` and `"`.
pub fn escape_value(input: &str) -> (r: String)
    ensures
        r@ == escape_spec(input@),
{
    proof {
        reveal_strlit("\\");
        reveal_strlit("\"");
    }
    let a = replace_exec(input, "\\", "\\\\");
    replace_exec(a.as_str(), "\"", "\\\"")
}

/// `"a", "b", ...`
pub open spec fn quote_list_spec(items: Seq<Seq<char>>) -> Seq<char> {
    crate::text::join(items.map_values(|s: Seq<char>| "\""@ + escape_spec(s) + "\""@), ", "@)
}

/// Quotes and escapes each item, separated by `, `.
pub fn quote_list(items: &[String]) -> (r: String)
    ensures
        r@ == quote_list_spec(views(items@)),
{
    let mut quoted: Vec<String> = Vec::new();
    let mut i: usize = 0;
    while i < items.len()
        invariant
            i <= items@.len(),
            views(quoted@) == views(items@).take(i as int).map_values(|s: Seq<char>| "\""@ + escape_spec(s) + "\""@),
        decreases items.len() - i,
    {
        let e = escape_value(items[i].as_str());
        let q = concat3("\"", e.as_str(), "\"");
        let ghost before = quoted@;
        quoted.push(q);
        assert(views(quoted@) =~= views(before).push(q@));
        assert(views(items@).take(i + 1).map_values(|s: Seq<char>| "\""@ + escape_spec(s) + "\""@) =~= views(
            items@,
        ).take(i as int).map_values(|s: Seq<char>| "\""@ + escape_spec(s) + "\""@).push(
            "\""@ + escape_spec(items@[i as int]@) + "\""@,
        ));
        i = i + 1;
    }
    assert(views(items@).take(items@.len() as int) =~= views(items@));
    crate::text::join_exec(&quoted, ", ")
}

/// `key = "value"` and a line break.
pub open spec fn lock_line(key: Seq<char>, value: Seq<char>) -> Seq<char> {
    key + " = \""@ + escape_spec(value) + "\"\n"@
}

/// The block of one locked dependency.
pub open spec fn lock_entry(p: DepLock) -> Seq<char> {
    "[[package]]\n"@ + lock_line("name"@, p.name@) + lock_line("version"@, p.version@) + lock_line("source"@, p.source@)
        + lock_line("checksum"@, p.checksum@) + "\n"@
}

/// The blocks of the locked dependencies, in order.
pub open spec fn lock_entries(ps: Seq<DepLock>) -> Seq<char>
    decreases ps.len(),
{
    if ps.len() == 0 {
        Seq::empty()
    } else {
        lock_entries(ps.drop_last()) + lock_entry(ps.last())
    }
}

/// The names of the locked dependencies.
pub open spec fn lock_names(ps: Seq<DepLock>) -> Seq<Seq<char>> {
    ps.map_values(|p: DepLock| p.name@)
}

/// The lock file: the project's block, listing its dependencies when there are
/// any, then one block per dependency.
pub open spec fn lock_text_spec(name: Seq<char>, version: Seq<char>, ps: Seq<DepLock>) -> Seq<char> {
    let deps_line = if ps.len() > 0 {
        "dependencies = ["@ + quote_list_spec(lock_names(ps)) + "]\n"@
    } else {
        Seq::empty()
    };
    "[[package]]\n"@ + lock_line("name"@, name) + lock_line("version"@, version) + deps_line + "\n"@ + lock_entries(ps)
}

fn lock_line_exec(key: &str, value: &str) -> (r: String)
    ensures
        r@ == lock_line(key@, value@),
{
    let e = escape_value(value);
    let a = concat3(key, " = \"", e.as_str());
    concat2(a.as_str(), "\"\n")
}

/// The text of `dcr.lock`.
pub fn lock_text(project_name: &str, project_version: &str, packages: &[DepLock]) -> (r: String)
    ensures
        r@ == lock_text_spec(project_name@, project_version@, packages@),
{
    let mut out = String::from_str("[[package]]\n");
    let l1 = lock_line_exec("name", project_name);
    out.append(l1.as_str());
    let l2 = lock_line_exec("version", project_version);
    out.append(l2.as_str());
    let ghost head = out@;
    if packages.len() > 0 {
        let mut names: Vec<String> = Vec::new();
        let mut i: usize = 0;
        while i < packages.len()
            invariant
                i <= packages@.len(),
                views(names@) == lock_names(packages@).take(i as int),
            decreases packages.len() - i,
        {
            let ghost before = names@;
            names.push(packages[i].name.clone());
            assert(views(names@) =~= views(before).push(packages@[i as int].name@));
            assert(lock_names(packages@).take(i + 1) =~= lock_names(packages@).take(i as int).push(
                packages@[i as int].name@,
            ));
            i = i + 1;
        }
        assert(lock_names(packages@).take(packages@.len() as int) =~= lock_names(packages@));
        let q = quote_list(names.as_slice());
        let d = concat3("dependencies = [", q.as_str(), "]\n");
        out.append(d.as_str());
    }
    push_char_str(&mut out, "\n");
    let ghost top = out@;
    assert(top == "[[package]]\n"@ + lock_line("name"@, project_name@) + lock_line("version"@, project_version@) + (
    if packages@.len() > 0 {
        "dependencies = ["@ + quote_list_spec(lock_names(packages@)) + "]\n"@
    } else {
        Seq::empty()
    }) + "\n"@);
    let mut i: usize = 0;
    assert(packages@.take(0) =~= Seq::<DepLock>::empty());
    while i < packages.len()
        invariant
            i <= packages@.len(),
            out@ == top + lock_entries(packages@.take(i as int)),
        decreases packages.len() - i,
    {
        let p = &packages[i];
        let mut block = String::from_str("[[package]]\n");
        let a = lock_line_exec("name", p.name.as_str());
        block.append(a.as_str());
        let b = lock_line_exec("version", p.version.as_str());
        block.append(b.as_str());
        let c = lock_line_exec("source", p.source.as_str());
        block.append(c.as_str());
        let d = lock_line_exec("checksum", p.checksum.as_str());
        block.append(d.as_str());
        push_char_str(&mut block, "\n");
        assert(block@ =~= lock_entry(*p));
        out.append(block.as_str());
        assert(packages@.take(i + 1).drop_last() =~= packages@.take(i as int));
        assert(out@ =~= top + lock_entries(packages@.take(i + 1)));
        i = i + 1;
    }
    assert(packages@.take(packages@.len() as int) =~= packages@);
    out
}

fn push_char_str(s: &mut String, t: &str)
    ensures
        final(s)@ == old(s)@ + t@,
{
    s.append(t);
}


// ---------------------------------------------------------------------------
// Resolving one dependency
// ---------------------------------------------------------------------------

/// Which of a dependency's conventional directories exist: `include`, `lib`,
/// `lib64` and `target/lib` under its root.
#[derive(Debug)]
pub struct DirProbe {
    pub include_dir: bool,
    pub lib: bool,
    pub lib64: bool,
    pub target_lib: bool,
}

/// The four lists of resolved dependencies, as text.
pub struct ResolvedModel {
    pub include_dirs: Seq<Seq<char>>,
    pub lib_dirs: Seq<Seq<char>>,
    pub libs: Seq<Seq<char>>,
    pub package_roots: Seq<Seq<char>>,
}

/// The lists of resolved dependencies as text.
pub open spec fn resolved_model(r: ResolvedDeps) -> ResolvedModel {
    ResolvedModel {
        include_dirs: views(r.include_dirs@),
        lib_dirs: views(r.lib_dirs@),
        libs: views(r.libs@),
        package_roots: views(r.package_roots@),
    }
}

/// `paths` with `p` added when `cond` holds.
pub open spec fn push_if(paths: Seq<Seq<char>>, p: Seq<char>, cond: bool) -> Seq<Seq<char>> {
    if cond {
        paths.push(p)
    } else {
        paths
    }
}

/// The packaged output directories added once each.
pub open spec fn with_package_outputs(m: ResolvedModel, root: Seq<char>) -> ResolvedModel {
    ResolvedModel {
        include_dirs: push_unique_spec(m.include_dirs, registry_include_dir_spec(root)),
        lib_dirs: push_unique_spec(m.lib_dirs, registry_lib_dir_spec(root)),
        ..m
    }
}

/// The existing conventional library directories added: `lib`, `lib64`, `target/lib`.
pub open spec fn with_default_lib_dirs(lib_dirs: Seq<Seq<char>>, root: Seq<char>, probe: DirProbe) -> Seq<Seq<char>> {
    push_if(
        push_if(push_if(lib_dirs, join(root, "lib"@), probe.lib), join(root, "lib64"@), probe.lib64),
        registry_lib_dir_spec(root),
        probe.target_lib,
    )
}

/// The `include` directory added when it exists, then the packaged outputs.
pub open spec fn with_default_includes(m: ResolvedModel, root: Seq<char>, probe: DirProbe) -> ResolvedModel {
    with_package_outputs(
        ResolvedModel { include_dirs: push_if(m.include_dirs, join(root, "include"@), probe.include_dir), ..m },
        root,
    )
}

/// The library a dependency links by default: its package name, else its key.
pub open spec fn default_lib(name: Seq<char>, package_name: Option<Seq<char>>) -> Seq<char> {
    match package_name {
        Some(p) => p,
        None => name,
    }
}

/// What a path dependency adds, before the check of its layout: explicit
/// `include`/`lib`/`libs` lists when given (paths joined onto the root), else
/// the conventional directories that exist and the default library; a
/// dependency built as a package also adds its root and packaged outputs.
pub open spec fn path_dep_effect(
    m: ResolvedModel,
    v: Toml,
    name: Seq<char>,
    root: Seq<char>,
    package_name: Option<Seq<char>>,
    probe: DirProbe,
    use_pkg: bool,
) -> ResolvedModel {
    let m1 = match v {
        Toml::Tab(t) => {
            let a = match array_entry(t, "include"@) {
                Some(items) => ResolvedModel { include_dirs: m.include_dirs + joined_all(root, items), ..m },
                None => with_default_includes(m, root, probe),
            };
            let b = match array_entry(t, "lib"@) {
                Some(items) => ResolvedModel { lib_dirs: a.lib_dirs + joined_all(root, items), ..a },
                None => ResolvedModel { lib_dirs: with_default_lib_dirs(a.lib_dirs, root, probe), ..a },
            };
            match array_entry(t, "libs"@) {
                Some(items) => ResolvedModel { libs: b.libs + items, ..b },
                None => ResolvedModel { libs: b.libs.push(default_lib(name, package_name)), ..b },
            }
        },
        _ => {
            let a = with_default_includes(m, root, probe);
            ResolvedModel {
                lib_dirs: with_default_lib_dirs(a.lib_dirs, root, probe),
                libs: a.libs.push(default_lib(name, package_name)),
                ..a
            }
        },
    };
    if use_pkg {
        with_package_outputs(ResolvedModel { package_roots: m1.package_roots.push(root), ..m1 }, root)
    } else {
        m1
    }
}

/// The message for a path dependency that is neither a package nor fully described.
pub open spec fn path_dep_layout_message(name: Seq<char>) -> Seq<char> {
    "Path dependency `"@ + name + "` has no dcr.toml; specify include, lib, and libs for a prebuilt library"@
}

fn push_if_exists(paths: &mut Vec<String>, path: String, exists: bool)
    ensures
        views(final(paths)@) == push_if(views(old(paths)@), path@, exists),
{
    if exists {
        let ghost before = paths@;
        paths.push(path);
        assert(views(paths@) =~= views(before).push(path@));
    }
}

/// Adds the conventional library directories of `dep_root` that exist.
pub fn push_default_lib_dirs(paths: &mut Vec<String>, dep_root: &str, probe: &DirProbe)
    ensures
        views(final(paths)@) == with_default_lib_dirs(views(old(paths)@), dep_root@, *probe),
{
    push_if_exists(paths, join_exec(dep_root, "lib"), probe.lib);
    push_if_exists(paths, join_exec(dep_root, "lib64"), probe.lib64);
    push_if_exists(paths, registry_lib_dir(dep_root), probe.target_lib);
}

fn push_default_includes(resolved: &mut ResolvedDeps, dep_root: &str, probe: &DirProbe)
    ensures
        resolved_model(*final(resolved)) == with_default_includes(resolved_model(*old(resolved)), dep_root@, *probe),
{
    push_if_exists(&mut resolved.include_dirs, join_exec(dep_root, "include"), probe.include_dir);
    push_package_output_dirs(resolved, dep_root);
}

/// Adds a path dependency found at `dep_root` (whose manifest, if any, names
/// the package `dcr_package_name`).
pub fn resolve_path_dep(
    resolved: &mut ResolvedDeps,
    value: &TomlValue,
    name: &str,
    dep_root: &str,
    dcr_package_name: Option<&str>,
    probe: &DirProbe,
) -> (r: Result<(), String>)
    ensures
        match use_dcr_package_spec(value.model(), dcr_package_name is Some, name@) {
            Err(m) => r is Err && r->Err_0@ == m && resolved_model(*final(resolved)) == resolved_model(*old(resolved)),
            Ok(use_pkg) => {
                &&& resolved_model(*final(resolved)) == path_dep_effect(
                    resolved_model(*old(resolved)),
                    value.model(),
                    name@,
                    dep_root@,
                    crate::platform::opt_view(dcr_package_name),
                    *probe,
                    use_pkg,
                )
                &&& (r is Ok <==> (use_pkg || complete_prebuilt_layout(value.model())))
                &&& (r is Err ==> r->Err_0@ == path_dep_layout_message(name@))
            },
        },
{
    let use_pkg = match use_dcr_package(value, dcr_package_name.is_some(), name) {
        Ok(b) => b,
        Err(e) => return Err(e),
    };
    let lib_name = match dcr_package_name {
        Some(p) => String::from_str(p),
        None => String::from_str(name),
    };
    let ghost m0 = resolved_model(*resolved);
    match value.as_table() {
        Some(table) => {
            match array_entry_exec(table, "include") {
                Some(items) => push_joined(&mut resolved.include_dirs, dep_root, &items),
                None => push_default_includes(resolved, dep_root, probe),
            }
            match array_entry_exec(table, "lib") {
                Some(items) => push_joined(&mut resolved.lib_dirs, dep_root, &items),
                None => push_default_lib_dirs(&mut resolved.lib_dirs, dep_root, probe),
            }
            match array_entry_exec(table, "libs") {
                Some(items) => crate::text::extend_strings(&mut resolved.libs, items.as_slice()),
                None => push_str_item(&mut resolved.libs, lib_name.as_str()),
            }
        },
        None => {
            push_default_includes(resolved, dep_root, probe);
            push_default_lib_dirs(&mut resolved.lib_dirs, dep_root, probe);
            push_str_item(&mut resolved.libs, lib_name.as_str());
        },
    }
    if use_pkg {
        push_str_item(&mut resolved.package_roots, dep_root);
        push_package_output_dirs(resolved, dep_root);
    } else if !has_complete_prebuilt_layout(value) {
        return Err(concat3(
            "Path dependency `",
            name,
            "` has no dcr.toml; specify include, lib, and libs for a prebuilt library",
        ));
    }
    Ok(())
}

/// What a git dependency adds, before the check of its layout.
pub open spec fn git_dep_effect(
    m: ResolvedModel,
    v: Toml,
    root: Seq<char>,
    package_name: Option<Seq<char>>,
    probe: DirProbe,
    use_pkg: bool,
) -> ResolvedModel {
    let (inc, lib, libs) = match v {
        Toml::Tab(t) => (array_entry(t, "include"@), array_entry(t, "lib"@), array_entry(t, "libs"@)),
        _ => (None, None, None),
    };
    let m1 = ResolvedModel {
        include_dirs: match inc {
            Some(items) => m.include_dirs + joined_all(root, items),
            None => m.include_dirs,
        },
        lib_dirs: match lib {
            Some(items) => m.lib_dirs + joined_all(root, items),
            None => m.lib_dirs,
        },
        libs: match libs {
            Some(items) => m.libs + items,
            None => m.libs,
        },
        ..m
    };
    let m2 = if inc is None {
        let a = ResolvedModel { include_dirs: push_if(m1.include_dirs, join(root, "include"@), probe.include_dir), ..m1 };
        if use_pkg {
            with_package_outputs(a, root)
        } else {
            a
        }
    } else {
        m1
    };
    let m3 = if lib is None {
        ResolvedModel { lib_dirs: with_default_lib_dirs(m2.lib_dirs, root, probe), ..m2 }
    } else {
        m2
    };
    let m4 = match (libs, package_name) {
        (None, Some(p)) => ResolvedModel { libs: m3.libs.push(p), ..m3 },
        _ => m3,
    };
    if use_pkg {
        ResolvedModel { package_roots: m4.package_roots.push(root), ..m4 }
    } else {
        m4
    }
}

/// The explicit layout lists given by a dependency value.
pub open spec fn layout_given(v: Toml) -> (bool, bool, bool) {
    match v {
        Toml::Tab(t) => (array_entry(t, "include"@) is Some, array_entry(t, "lib"@) is Some, array_entry(t, "libs"@) is Some),
        _ => (false, false, false),
    }
}

/// Adds a git dependency checked out at `dep_root`.
pub fn resolve_git_dep(
    resolved: &mut ResolvedDeps,
    value: &TomlValue,
    name: &str,
    dep_root: &str,
    dcr_package_name: Option<&str>,
    probe: &DirProbe,
) -> (r: Result<(), String>)
    ensures
        match use_dcr_package_spec(value.model(), dcr_package_name is Some, name@) {
            Err(m) => r is Err && r->Err_0@ == m && resolved_model(*final(resolved)) == resolved_model(*old(resolved)),
            Ok(use_pkg) => {
                let g = layout_given(value.model());
                &&& resolved_model(*final(resolved)) == git_dep_effect(
                    resolved_model(*old(resolved)),
                    value.model(),
                    dep_root@,
                    crate::platform::opt_view(dcr_package_name),
                    *probe,
                    use_pkg,
                )
                &&& (r is Ok <==> (use_pkg || (g.0 && g.1 && g.2)))
                &&& (r is Err ==> r->Err_0@ == "Git dependency `"@ + name@
                    + "` has no dcr.toml; specify include, lib, and libs for a prebuilt library"@)
            },
        },
{
    let use_pkg = match use_dcr_package(value, dcr_package_name.is_some(), name) {
        Ok(b) => b,
        Err(e) => return Err(e),
    };
    let (has_include, has_lib, has_libs) = match value.as_table() {
        Some(table) => push_explicit_layout(resolved, dep_root, table),
        None => {
            assert(views(resolved.include_dirs@) =~= views(resolved.include_dirs@) + Seq::<Seq<char>>::empty());
            (false, false, false)
        },
    };
    if !has_include {
        push_if_exists(&mut resolved.include_dirs, join_exec(dep_root, "include"), probe.include_dir);
        if use_pkg {
            push_package_output_dirs(resolved, dep_root);
        }
    }
    if !has_lib {
        push_default_lib_dirs(&mut resolved.lib_dirs, dep_root, probe);
    }
    if !has_libs {
        if let Some(p) = dcr_package_name {
            push_str_item(&mut resolved.libs, p);
        }
    }
    if use_pkg {
        push_str_item(&mut resolved.package_roots, dep_root);
    } else if !(has_include && has_lib && has_libs) {
        return Err(concat3(
            "Git dependency `",
            name,
            "` has no dcr.toml; specify include, lib, and libs for a prebuilt library",
        ));
    }
    Ok(())
}

/// Adds a registry dependency whose package lives at `dep_root`, and returns
/// its lock entry (`registry_url` defaults to the public registry).
pub fn resolve_registry_dep(
    resolved: &mut ResolvedDeps,
    name: &str,
    dep_root: &str,
    version: Option<&str>,
    registry_url: Option<&str>,
) -> (r: DepLock)
    ensures
        resolved_model(*final(resolved)) == (ResolvedModel {
            include_dirs: resolved_model(*old(resolved)).include_dirs.push(registry_include_dir_spec(dep_root@)),
            lib_dirs: resolved_model(*old(resolved)).lib_dirs.push(registry_lib_dir_spec(dep_root@)),
            libs: resolved_model(*old(resolved)).libs.push(name@),
            package_roots: resolved_model(*old(resolved)).package_roots.push(dep_root@),
        }),
        r.name@ == name@,
        r.version@ == match version {
            Some(v) => v@,
            None => Seq::empty(),
        },
        r.checksum@ == Seq::<char>::empty(),
        r.source@ == "registry+"@ + match registry_url {
            Some(u) => u@,
            None => "https://dcr-registry.pages.dev"@,
        },
{
    let inc = registry_include_dir(dep_root);
    push_str_item(&mut resolved.include_dirs, inc.as_str());
    let lib = registry_lib_dir(dep_root);
    push_str_item(&mut resolved.lib_dirs, lib.as_str());
    push_str_item(&mut resolved.libs, name);
    push_str_item(&mut resolved.package_roots, dep_root);
    let url = match registry_url {
        Some(u) => u,
        None => "https://dcr-registry.pages.dev",
    };
    DepLock {
        name: String::from_str(name),
        version: match version {
            Some(v) => String::from_str(v),
            None => String::new(),
        },
        checksum: String::new(),
        source: concat2("registry+", url),
    }
}

/// The lock entry of a path dependency.
pub fn path_lock(name: &str, dep_root: &str, version: &str) -> (r: DepLock)
    ensures
        r.name@ == name@,
        r.version@ == version@,
        r.checksum@ == Seq::<char>::empty(),
        r.source@ == "path+"@ + dep_root@,
{
    DepLock {
        name: String::from_str(name),
        version: String::from_str(version),
        checksum: String::new(),
        source: concat2("path+", dep_root),
    }
}

/// The lock entry of a git dependency at `commit`: its version defaults to
/// the commit, which is also its checksum.
pub fn git_lock(name: &str, git: &GitDep, commit: &str) -> (r: DepLock)
    ensures
        r.name@ == name@,
        r.version@ == match git.version {
            Some(v) => v@,
            None => commit@,
        },
        r.checksum@ == commit@,
        r.source@ == "git+"@ + git.url@ + "#"@ + commit@,
{
    DepLock {
        name: String::from_str(name),
        version: match &git.version {
            Some(v) => v.clone(),
            None => String::from_str(commit),
        },
        checksum: String::from_str(commit),
        source: {
            let a = concat3("git+", git.url.as_str(), "#");
            concat2(a.as_str(), commit)
        },
    }
}

/// A version control system for new projects.
#[derive(Clone, Copy, PartialEq, Eq, Structural, Debug)]
pub enum VcsKind {
    Git,
    /// No version control (the name `none`).
    NoVcs,
}

impl VcsKind {
    /// Reads a VCS name, case-insensitively.
    pub fn parse(s: &str) -> (r: Result<VcsKind, String>)
        ensures
            lower(s@) == "git"@ ==> r == Ok::<VcsKind, String>(VcsKind::Git),
            lower(s@) == "none"@ ==> r == Ok::<VcsKind, String>(VcsKind::NoVcs),
            lower(s@) != "git"@ && lower(s@) != "none"@ ==> r is Err && r->Err_0@ == "Unknown VCS: "@ + s@,
    {
        proof {
            reveal_strlit("git");
            reveal_strlit("none");
            assert("git"@.len() == 3 && "none"@.len() == 4);
            assert("git"@ != "none"@);
        }
        let l = crate::text::lower_exec(s);
        if str_eq(l.as_str(), "git") {
            Ok(VcsKind::Git)
        } else if str_eq(l.as_str(), "none") {
            Ok(VcsKind::NoVcs)
        } else {
            Err(concat2("Unknown VCS: ", s))
        }
    }
}


// ---------------------------------------------------------------------------
// Dependencies as `dcr gen` describes them (the project may not be built yet)
// ---------------------------------------------------------------------------

/// Each item with `{profile}` replaced by the profile name.
pub open spec fn profiled(items: Seq<Seq<char>>, profile: Seq<char>) -> Seq<Seq<char>> {
    items.map_values(|s: Seq<char>| replace_all(s, "{profile}"@, profile))
}

/// Where `dcr gen` looks for a dependency: the `path` entry of a table that is
/// not marked `system = true`, with `{profile}` replaced and joined onto the
/// project root. Other dependencies are not described.
pub open spec fn gen_dep_root_spec(v: Toml, profile: Seq<char>, project_root: Seq<char>) -> Option<Seq<char>> {
    match v {
        Toml::Tab(t) => if tab_get(t, "system"@) == Some(Toml::Bool(true)) {
            None
        } else {
            match str_entry(t, "path"@) {
                Some(p) => Some(join(project_root, replace_all(p, "{profile}"@, profile))),
                None => None,
            }
        },
        _ => None,
    }
}

/// The directory of a dependency as `dcr gen` sees it, if it describes one.
pub fn gen_dep_root(value: &TomlValue, profile: &str, project_root: &str) -> (r: Option<String>)
    ensures
        opt_string_view(r) == gen_dep_root_spec(value.model(), profile@, project_root@),
{
    match value.as_table() {
        Some(t) => {
            match table_get(t, "system") {
                Some(TomlValue::Boolean(true)) => return None,
                _ => {},
            }
            match str_entry_exec(t, "path") {
                Some(p) => {
                    proof {
                        reveal_strlit("{profile}");
                    }
                    let raw = replace_exec(p.as_str(), "{profile}", profile);
                    Some(join_exec(project_root, raw.as_str()))
                },
                None => None,
            }
        },
        None => None,
    }
}

/// What `dcr gen` adds for a dependency found at `dep_root`: the listed header
/// and library directories (with `{profile}` replaced, joined onto the root),
/// or else `include` when it exists and the first of `lib` and `lib64` that
/// exists; and the listed libraries, or the dependency's name when none are
/// listed.
pub open spec fn gen_dep_effect(
    m: ResolvedModel,
    t: Seq<(Seq<char>, Toml)>,
    name: Seq<char>,
    profile: Seq<char>,
    dep_root: Seq<char>,
    probe: DirProbe,
) -> ResolvedModel {
    ResolvedModel {
        include_dirs: match array_entry(t, "include"@) {
            Some(items) => m.include_dirs + joined_all(dep_root, profiled(items, profile)),
            None => push_if(m.include_dirs, join(dep_root, "include"@), probe.include_dir),
        },
        lib_dirs: match array_entry(t, "lib"@) {
            Some(items) => m.lib_dirs + joined_all(dep_root, profiled(items, profile)),
            None => if probe.lib {
                m.lib_dirs.push(join(dep_root, "lib"@))
            } else {
                push_if(m.lib_dirs, join(dep_root, "lib64"@), probe.lib64)
            },
        },
        libs: match array_entry(t, "libs"@) {
            Some(items) => if items.len() > 0 {
                m.libs + items
            } else {
                m.libs.push(name)
            },
            None => m.libs.push(name),
        },
        ..m
    }
}

fn profiled_exec(items: &Vec<String>, profile: &str) -> (r: Vec<String>)
    ensures
        views(r@) == profiled(views(items@), profile@),
{
    let mut out: Vec<String> = Vec::new();
    let mut i: usize = 0;
    while i < items.len()
        invariant
            i <= items@.len(),
            views(out@) == profiled(views(items@), profile@).take(i as int),
        decreases items.len() - i,
    {
        let ghost before = out@;
        proof {
            reveal_strlit("{profile}");
        }
        let s = replace_exec(items[i].as_str(), "{profile}", profile);
        out.push(s);
        assert(views(out@) =~= views(before).push(s@));
        assert(profiled(views(items@), profile@).take(i + 1) =~= profiled(views(items@), profile@).take(i as int).push(
            replace_all(items@[i as int]@, "{profile}"@, profile@),
        ));
        i = i + 1;
    }
    assert(profiled(views(items@), profile@).take(items@.len() as int) =~= profiled(views(items@), profile@));
    out
}

/// Adds a dependency (the table `table`, named `name`, found at `dep_root`)
/// to the lists `dcr gen` writes.
pub fn push_gen_dep(
    resolved: &mut ResolvedDeps,
    name: &str,
    table: &Vec<(String, TomlValue)>,
    profile: &str,
    dep_root: &str,
    probe: &DirProbe,
)
    ensures
        resolved_model(*final(resolved)) == gen_dep_effect(
            resolved_model(*old(resolved)),
            model_tab(table@),
            name@,
            profile@,
            dep_root@,
            *probe,
        ),
{
    match array_entry_exec(table, "include") {
        Some(items) => {
            let p = profiled_exec(&items, profile);
            push_joined(&mut resolved.include_dirs, dep_root, &p);
        },
        None => push_if_exists(&mut resolved.include_dirs, join_exec(dep_root, "include"), probe.include_dir),
    }
    match array_entry_exec(table, "lib") {
        Some(items) => {
            let p = profiled_exec(&items, profile);
            push_joined(&mut resolved.lib_dirs, dep_root, &p);
        },
        None => if probe.lib {
            push_if_exists(&mut resolved.lib_dirs, join_exec(dep_root, "lib"), true);
        } else {
            push_if_exists(&mut resolved.lib_dirs, join_exec(dep_root, "lib64"), probe.lib64);
        },
    }
    match array_entry_exec(table, "libs") {
        Some(items) => if items.len() > 0 {
            crate::text::extend_strings(&mut resolved.libs, items.as_slice());
        } else {
            push_str_item(&mut resolved.libs, name);
        },
        None => push_str_item(&mut resolved.libs, name),
    }
}


// ---------------------------------------------------------------------------
// Registries
// ---------------------------------------------------------------------------

/// A configured package registry: its URL and its priority among the others.
#[derive(Debug)]
pub struct Registry {
    pub url: String,
    pub priority: i32,
}

/// Whether the package entry named `n` (`None`: an entry without a name) is
/// the package `name`.
pub open spec fn names_package(n: Option<String>, name: Seq<char>) -> bool {
    match n {
        Some(s) => s@ == name,
        None => false,
    }
}

/// The first entry of a package index that is the package `name`; `names`
/// holds the name of each entry, if it has one.
pub fn find_package(names: &[Option<String>], name: &str) -> (r: Option<usize>)
    ensures
        match r {
            Some(i) => i < names@.len() && names_package(names@[i as int], name@) && forall|j: int|
                0 <= j < i ==> !names_package(#[trigger] names@[j], name@),
            None => forall|j: int| 0 <= j < names@.len() ==> !names_package(#[trigger] names@[j], name@),
        },
{
    let mut i: usize = 0;
    while i < names.len()
        invariant
            i <= names@.len(),
            forall|j: int| 0 <= j < i ==> !names_package(#[trigger] names@[j], name@),
        decreases names.len() - i,
    {
        let hit = match &names[i] {
            Some(s) => str_eq(s.as_str(), name),
            None => false,
        };
        if hit {
            return Some(i);
        }
        i = i + 1;
    }
    None
}


/// The strings of an array whose items are all strings are those items, in order.
proof fn lemma_all_strings(a: Seq<Toml>)
    requires
        forall|i: int| 0 <= i < a.len() ==> (#[trigger] a[i]) is Str,
    ensures
        array_strings(a).len() == a.len(),
        forall|i: int| 0 <= i < a.len() ==> #[trigger] array_strings(a)[i] == a[i]->Str_0,
    decreases a.len(),
{
    if a.len() > 0 {
        let r = a.drop_first();
        assert forall|i: int| 0 <= i < r.len() implies (#[trigger] r[i]) is Str by {
            assert(r[i] == a[i + 1]);
        }
        lemma_all_strings(r);
        assert forall|i: int| 0 <= i < a.len() implies #[trigger] array_strings(a)[i] == a[i]->Str_0 by {
            if i > 0 {
                assert(r[i - 1] == a[i]);
            }
        }
    }
}

/// A path dependency table with a `libs` array links exactly those libraries,
/// in order, after the ones already collected; one without `libs` links its
/// package name (or, without a package, its key) instead. The other lists do
/// not change the libraries.
pub proof fn lemma_path_dep_libraries(
    m: ResolvedModel,
    t: Seq<(Seq<char>, Toml)>,
    name: Seq<char>,
    root: Seq<char>,
    package_name: Option<Seq<char>>,
    probe: DirProbe,
    use_pkg: bool,
)
    ensures
        ({
            let libs = path_dep_effect(m, Toml::Tab(t), name, root, package_name, probe, use_pkg).libs;
            &&& match tab_get(t, "libs"@) {
                Some(Toml::Arr(a)) => (forall|i: int| 0 <= i < a.len() ==> (#[trigger] a[i]) is Str) ==> {
                    &&& libs.len() == m.libs.len() + a.len()
                    &&& libs.take(m.libs.len() as int) == m.libs
                    &&& forall|i: int| 0 <= i < a.len() ==> #[trigger] libs[m.libs.len() + i] == a[i]->Str_0
                },
                None => libs == m.libs.push(
                    match package_name {
                        Some(p) => p,
                        None => name,
                    },
                ),
                _ => true,
            }
        }),
{
    if let Some(Toml::Arr(a)) = tab_get(t, "libs"@) {
        if forall|i: int| 0 <= i < a.len() ==> (#[trigger] a[i]) is Str {
            lemma_all_strings(a);
            let libs = path_dep_effect(m, Toml::Tab(t), name, root, package_name, probe, use_pkg).libs;
            assert(libs == m.libs + array_strings(a));
            assert(libs.take(m.libs.len() as int) =~= m.libs);
        }
    }
}

} // verus!
