//! Custom build steps (`[[build.steps]]`, `[[build.post_steps]]`): reading
//! them from the manifest and the flags handed to their commands.
use vstd::prelude::*;

use crate::build_config::Config;
use crate::resolve::{lookup, profile_table_spec};
use crate::text::{
    chars_of, concat2, concat3, contains, contains_str, has_char, has_prefix, is_whitespace, lower, lower_exec,
    replace_all, replace_exec, starts_with, str_eq, trim, trim_exec, trim_start_matches, trim_start_matches_exec,
    views,
};
use crate::value::{model_arr, model_tab, sort_dedup, str_or_empty, strictly_sorted, tab_get, table_get, Toml, TomlValue};

verus! {

/// One build step: a command run for the inputs matching `input`, producing `output`.
#[derive(Debug)]
pub struct BuildStep {
    pub name: String,
    pub input: String,
    pub output: String,
    pub cmd: String,
}

/// The trimmed string entry `k`, or empty text.
pub open spec fn field_text(t: Seq<(Seq<char>, Toml)>, k: Seq<char>) -> Seq<char> {
    match tab_get(t, k) {
        Some(v) => trim(str_or_empty(v)),
        None => Seq::empty(),
    }
}

/// The steps of an array of step tables, or the message for the first bad entry.
pub open spec fn steps_from_items(a: Seq<Toml>, key: Seq<char>) -> Result<Seq<(Seq<char>, Seq<char>, Seq<char>, Seq<char>)>, Seq<char>>
    decreases a.len(),
{
    if a.len() == 0 {
        Ok(Seq::empty())
    } else {
        match a[0] {
            Toml::Tab(t) => {
                let s = (field_text(t, "name"@), field_text(t, "in"@), field_text(t, "out"@), field_text(t, "cmd"@));
                if s.0.len() == 0 || s.1.len() == 0 || s.2.len() == 0 || s.3.len() == 0 {
                    Err(key + " entries must include name, in, out, cmd"@)
                } else {
                    match steps_from_items(a.drop_first(), key) {
                        Ok(rest) => Ok(seq![s] + rest),
                        Err(e) => Err(e),
                    }
                }
            },
            _ => Err(key + " entries must be tables"@),
        }
    }
}

/// The steps listed in a value: it must be an array of tables, each giving a
/// non-blank name, input, output and command (all trimmed).
pub open spec fn steps_spec(v: Toml, key: Seq<char>) -> Result<Seq<(Seq<char>, Seq<char>, Seq<char>, Seq<char>)>, Seq<char>> {
    match v {
        Toml::Arr(a) => steps_from_items(a, key),
        _ => Err(key + " must be an array"@),
    }
}

/// The step as text.
pub open spec fn step_view(s: BuildStep) -> (Seq<char>, Seq<char>, Seq<char>, Seq<char>) {
    (s.name@, s.input@, s.output@, s.cmd@)
}

/// The steps as text.
pub open spec fn steps_view(v: Seq<BuildStep>) -> Seq<(Seq<char>, Seq<char>, Seq<char>, Seq<char>)> {
    v.map_values(|s: BuildStep| step_view(s))
}

fn field_text_exec(t: &Vec<(String, TomlValue)>, k: &str) -> (r: String)
    ensures
        r@ == field_text(model_tab(t@), k@),
{
    match table_get(t, k) {
        Some(v) => trim_exec(v.str_or_empty()),
        None => String::new(),
    }
}

/// Reads the build steps of a value.
pub fn get_build_steps_from_value(value: &TomlValue, key: &str) -> (r: Result<Vec<BuildStep>, String>)
    ensures
        match steps_spec(value.model(), key@) {
            Ok(v) => r is Ok && steps_view(r->Ok_0@) == v,
            Err(m) => r is Err && r->Err_0@ == m,
        },
{
    let arr = match value.as_array() {
        Some(a) => a,
        None => return Err(concat2(key, " must be an array")),
    };
    let ghost m = model_arr(arr@);
    let mut out: Vec<BuildStep> = Vec::new();
    let mut i: usize = 0;
    assert(m.skip(0) =~= m);
    assert(steps_view(out@) =~= Seq::<(Seq<char>, Seq<char>, Seq<char>, Seq<char>)>::empty());
    while i < arr.len()
        invariant
            m == model_arr(arr@),
            value.model() == Toml::Arr(m),
            i <= arr@.len(),
            steps_spec(value.model(), key@) == match steps_from_items(m.skip(i as int), key@) {
                Ok(rest) => Ok(steps_view(out@) + rest),
                Err(e) => Err(e),
            },
        decreases arr.len() - i,
    {
        assert(m.skip(i as int).drop_first() =~= m.skip(i + 1));
        assert(m.skip(i as int)[0] == arr@[i as int].model());
        let tbl = match arr[i].as_table() {
            Some(t) => t,
            None => return Err(concat2(key, " entries must be tables")),
        };
        proof {
            reveal_strlit("name");
            reveal_strlit("in");
            reveal_strlit("out");
            reveal_strlit("cmd");
        }
        let name = field_text_exec(tbl, "name");
        let input = field_text_exec(tbl, "in");
        let output = field_text_exec(tbl, "out");
        let cmd = field_text_exec(tbl, "cmd");
        if name.as_str().is_empty() || input.as_str().is_empty() || output.as_str().is_empty() || cmd.as_str().is_empty() {
            return Err(concat2(key, " entries must include name, in, out, cmd"));
        }
        let step = BuildStep { name, input, output, cmd };
        let ghost sv = step_view(step);
        let ghost before = out@;
        out.push(step);
        assert(steps_view(out@) =~= steps_view(before).push(sv));
        proof {
            let rest = steps_from_items(m.skip(i + 1), key@);
            if rest is Ok {
                assert(steps_view(before) + (seq![sv] + rest->Ok_0) =~= steps_view(out@) + rest->Ok_0);
            }
        }
        i = i + 1;
    }
    assert(m.skip(arr@.len() as int) =~= Seq::<Toml>::empty());
    assert(steps_view(out@) + Seq::<(Seq<char>, Seq<char>, Seq<char>, Seq<char>)>::empty() =~= steps_view(out@));
    Ok(out)
}

/// The steps under a dotted key; none when the key is absent.
pub open spec fn steps_at(data: Toml, key: Seq<char>) -> Result<Seq<(Seq<char>, Seq<char>, Seq<char>, Seq<char>)>, Seq<char>> {
    match lookup(data, key) {
        Some(v) => steps_spec(v, key),
        None => Ok(Seq::empty()),
    }
}

/// Reads the steps under a dotted key.
pub fn get_build_steps(config: &Config, key: &str) -> (r: Result<Vec<BuildStep>, String>)
    ensures
        match steps_at(config.data_model(), key@) {
            Ok(v) => r is Ok && steps_view(r->Ok_0@) == v,
            Err(m) => r is Err && r->Err_0@ == m,
        },
{
    match config.get(key) {
        Some(v) => get_build_steps_from_value(v, key),
        None => Ok(Vec::new()),
    }
}

/// The steps for a profile: the profile's own list when `[build.<profile>]`
/// has one, else the base `build.<field>` list.
pub open spec fn steps_with_profile(data: Toml, field: Seq<char>, profile: Seq<char>) -> Result<
    Seq<(Seq<char>, Seq<char>, Seq<char>, Seq<char>)>,
    Seq<char>,
> {
    match profile_table_spec(data, profile) {
        Some(t) => match tab_get(t, field) {
            Some(v) => steps_spec(v, "build."@ + profile + "."@ + field),
            None => steps_at(data, "build."@ + field),
        },
        None => steps_at(data, "build."@ + field),
    }
}

/// Reads the steps (`steps` or `post_steps`) for a profile.
pub fn get_build_steps_with_profile(config: &Config, field: &str, profile: &str) -> (r: Result<Vec<BuildStep>, String>)
    ensures
        match steps_with_profile(config.data_model(), field@, profile@) {
            Ok(v) => r is Ok && steps_view(r->Ok_0@) == v,
            Err(m) => r is Err && r->Err_0@ == m,
        },
{
    let pkey = concat2("build.", profile);
    if let Some(v) = config.get(pkey.as_str()) {
        if let Some(t) = v.as_table() {
            if let Some(value) = table_get(t, field) {
                let a = concat3("build.", profile, ".");
                let key = concat2(a.as_str(), field);
                return get_build_steps_from_value(value, key.as_str());
            }
        }
    }
    let key = concat2("build.", field);
    get_build_steps(config, key.as_str())
}

// ---------------------------------------------------------------------------
// Flags for step commands
// ---------------------------------------------------------------------------

/// A compiler driven with MSVC-style options.
pub open spec fn is_msvc_compiler_spec(compiler: Seq<char>) -> bool {
    let l = lower(compiler);
    contains(l, "cl.exe"@) || l == "cl"@ || contains(l, "clang-cl"@) || contains(l, "msvc"@)
}

/// Whether the compiler takes MSVC-style options.
pub fn is_msvc_compiler(compiler: &str) -> (r: bool)
    ensures
        r == is_msvc_compiler_spec(compiler@),
{
    let l = lower_exec(compiler);
    contains_str(l.as_str(), "cl.exe") || str_eq(l.as_str(), "cl") || contains_str(l.as_str(), "clang-cl")
        || contains_str(l.as_str(), "msvc")
}

/// An argument quoted for a shell when it holds whitespace or `"`.
pub open spec fn quote_step_arg_spec(arg: Seq<char>) -> Seq<char> {
    if !(exists|i: int| 0 <= i < arg.len() && (is_whitespace(#[trigger] arg[i]) || arg[i] == '"')) {
        arg
    } else {
        "\""@ + replace_all(arg, "\""@, "\\\""@) + "\""@
    }
}

fn needs_quotes(arg: &str) -> (r: bool)
    ensures
        r == exists|i: int| 0 <= i < arg@.len() && (is_whitespace(#[trigger] arg@[i]) || arg@[i] == '"'),
{
    let v = chars_of(arg);
    let mut i: usize = 0;
    while i < v.len()
        invariant
            v@ == arg@,
            i <= v@.len(),
            forall|j: int| 0 <= j < i ==> !(is_whitespace(#[trigger] arg@[j]) || arg@[j] == '"'),
        decreases v.len() - i,
    {
        if crate::text::is_whitespace_exec(v[i]) || v[i] == '"' {
            assert(is_whitespace(arg@[i as int]) || arg@[i as int] == '"');
            return true;
        }
        i = i + 1;
    }
    false
}

/// Quotes an argument for a shell command line when needed.
pub fn quote_step_arg(arg: String) -> (r: String)
    ensures
        r@ == quote_step_arg_spec(arg@),
{
    if !needs_quotes(arg.as_str()) {
        return arg;
    }
    proof {
        reveal_strlit("\"");
    }
    let escaped = replace_exec(arg.as_str(), "\"", "\\\"");
    concat3("\"", escaped.as_str(), "\"")
}

/// Include and define flags of `cflags` for step commands, with `/D` copies of
/// `-D` flags in MSVC style.
pub open spec fn step_flag_items(cflags: Seq<Seq<char>>, msvc: bool) -> Seq<Seq<char>>
    decreases cflags.len(),
{
    if cflags.len() == 0 {
        Seq::empty()
    } else {
        let f = cflags[0];
        let a = if has_prefix(f, "-I"@) || has_prefix(f, "-D"@) {
            seq![f]
        } else {
            Seq::empty()
        };
        let b = if has_prefix(f, "/I"@) || has_prefix(f, "/D"@) {
            seq![f]
        } else {
            Seq::empty()
        };
        let c = if msvc && has_prefix(f, "-D"@) {
            seq!["/D"@ + trim_start_matches(f, "-D"@)]
        } else {
            Seq::empty()
        };
        a + b + c + step_flag_items(cflags.drop_first(), msvc)
    }
}

/// `-I<dir>` for each directory, and `/I<dir>` too in MSVC style.
pub open spec fn step_include_items(dirs: Seq<Seq<char>>, msvc: bool) -> Seq<Seq<char>>
    decreases dirs.len(),
{
    if dirs.len() == 0 {
        Seq::empty()
    } else {
        (if msvc {
            seq!["-I"@ + dirs[0], "/I"@ + dirs[0]]
        } else {
            seq!["-I"@ + dirs[0]]
        }) + step_include_items(dirs.drop_first(), msvc)
    }
}

/// MSVC style: an MSVC compiler, or any flag written with `/`.
pub open spec fn step_msvc_style(cflags: Seq<Seq<char>>, compiler: Seq<char>) -> bool {
    is_msvc_compiler_spec(compiler) || exists|i: int| 0 <= i < cflags.len() && has_prefix(#[trigger] cflags[i], "/"@)
}

/// The flags text is the distinct flags in ascending order, each quoted when
/// needed, separated by spaces.
pub open spec fn step_flags_ok(r: Seq<char>, cflags: Seq<Seq<char>>, include_dirs: Seq<Seq<char>>, compiler: Seq<char>) -> bool {
    let msvc = step_msvc_style(cflags, compiler);
    let items = step_flag_items(cflags, msvc) + step_include_items(include_dirs, msvc);
    exists|sorted: Seq<Seq<char>>|
        #![trigger strictly_sorted(sorted)]
        strictly_sorted(sorted) && (forall|x: Seq<char>| sorted.contains(x) <==> items.contains(x)) && r
            == crate::text::join(sorted.map_values(|a: Seq<char>| quote_step_arg_spec(a)), " "@)
}

fn collect_step_items(cflags: &[String], include_dirs: &[String], msvc: bool) -> (r: Vec<String>)
    ensures
        views(r@) == step_flag_items(views(cflags@), msvc) + step_include_items(views(include_dirs@), msvc),
{
    proof {
        reveal_strlit("-I");
        reveal_strlit("-D");
        reveal_strlit("/I");
        reveal_strlit("/D");
    }
    let ghost cs = views(cflags@);
    let ghost ds = views(include_dirs@);
    let mut out: Vec<String> = Vec::new();
    let mut i: usize = 0;
    assert(cs.skip(0) =~= cs);
    assert(views(out@) =~= Seq::<Seq<char>>::empty());
    while i < cflags.len()
        invariant
            cs == views(cflags@),
            i <= cflags@.len(),
            step_flag_items(cs, msvc) == views(out@) + step_flag_items(cs.skip(i as int), msvc),
        decreases cflags.len() - i,
    {
        let f = cflags[i].as_str();
        assert(cs.skip(i as int).drop_first() =~= cs.skip(i + 1));
        assert(cs.skip(i as int)[0] == f@);
        let ghost before = views(out@);
        let ghost a = if has_prefix(f@, "-I"@) || has_prefix(f@, "-D"@) {
            seq![f@]
        } else {
            Seq::<Seq<char>>::empty()
        };
        let ghost b = if has_prefix(f@, "/I"@) || has_prefix(f@, "/D"@) {
            seq![f@]
        } else {
            Seq::<Seq<char>>::empty()
        };
        let ghost c = if msvc && has_prefix(f@, "-D"@) {
            seq!["/D"@ + trim_start_matches(f@, "-D"@)]
        } else {
            Seq::<Seq<char>>::empty()
        };
        if starts_with(f, "-I") || starts_with(f, "-D") {
            crate::text::push_str_item(&mut out, f);
        }
        assert(views(out@) =~= before + a);
        if starts_with(f, "/I") || starts_with(f, "/D") {
            crate::text::push_str_item(&mut out, f);
        }
        assert(views(out@) =~= before + a + b);
        if msvc && starts_with(f, "-D") {
            proof {
                reveal_strlit("-D");
            }
            let t = trim_start_matches_exec(f, "-D");
            let d = concat2("/D", t.as_str());
            crate::text::push_str_item(&mut out, d.as_str());
        }
        assert(views(out@) =~= before + a + b + c);
        assert(before + (a + b + c + step_flag_items(cs.skip(i + 1), msvc)) =~= views(out@) + step_flag_items(
            cs.skip(i + 1),
            msvc,
        ));
        i = i + 1;
    }
    assert(cs.skip(cflags@.len() as int) =~= Seq::<Seq<char>>::empty());
    let ghost mid = views(out@);
    assert(step_flag_items(cs, msvc) =~= mid);
    let mut j: usize = 0;
    assert(ds.skip(0) =~= ds);
    assert(mid + step_include_items(ds, msvc) =~= views(out@) + step_include_items(ds.skip(0), msvc));
    while j < include_dirs.len()
        invariant
            ds == views(include_dirs@),
            j <= include_dirs@.len(),
            mid + step_include_items(ds, msvc) == views(out@) + step_include_items(ds.skip(j as int), msvc),
        decreases include_dirs.len() - j,
    {
        let d = include_dirs[j].as_str();
        assert(ds.skip(j as int).drop_first() =~= ds.skip(j + 1));
        assert(ds.skip(j as int)[0] == d@);
        let ghost before = views(out@);
        let x = concat2("-I", d);
        crate::text::push_str_item(&mut out, x.as_str());
        if msvc {
            let y = concat2("/I", d);
            crate::text::push_str_item(&mut out, y.as_str());
            assert(before + (seq![x@, y@] + step_include_items(ds.skip(j + 1), msvc)) =~= views(out@)
                + step_include_items(ds.skip(j + 1), msvc));
        } else {
            assert(before + (seq![x@] + step_include_items(ds.skip(j + 1), msvc)) =~= views(out@) + step_include_items(
                ds.skip(j + 1),
                msvc,
            ));
        }
        j = j + 1;
    }
    assert(ds.skip(include_dirs@.len() as int) =~= Seq::<Seq<char>>::empty());
    assert(views(out@) + Seq::<Seq<char>>::empty() =~= views(out@));
    out
}

fn any_slash_flag(cflags: &[String]) -> (r: bool)
    ensures
        r == exists|i: int| 0 <= i < cflags@.len() && has_prefix(#[trigger] views(cflags@)[i], "/"@),
{
    proof {
        reveal_strlit("/");
    }
    let mut i: usize = 0;
    while i < cflags.len()
        invariant
            i <= cflags@.len(),
            forall|j: int| 0 <= j < i ==> !has_prefix(#[trigger] views(cflags@)[j], "/"@),
        decreases cflags.len() - i,
    {
        if starts_with(cflags[i].as_str(), "/") {
            assert(has_prefix(views(cflags@)[i as int], "/"@));
            return true;
        }
        i = i + 1;
    }
    false
}

fn quote_all(sorted: &Vec<String>) -> (r: Vec<String>)
    ensures
        views(r@) == views(sorted@).map_values(|a: Seq<char>| quote_step_arg_spec(a)),
{
    let mut quoted: Vec<String> = Vec::new();
    let mut k: usize = 0;
    while k < sorted.len()
        invariant
            k <= sorted@.len(),
            views(quoted@) == views(sorted@).take(k as int).map_values(|a: Seq<char>| quote_step_arg_spec(a)),
        decreases sorted.len() - k,
    {
        let q = quote_step_arg(sorted[k].clone());
        let ghost before = quoted@;
        quoted.push(q);
        assert(views(quoted@) =~= views(before).push(q@));
        assert(views(sorted@).take(k + 1).map_values(|a: Seq<char>| quote_step_arg_spec(a)) =~= views(sorted@).take(
            k as int,
        ).map_values(|a: Seq<char>| quote_step_arg_spec(a)).push(quote_step_arg_spec(sorted@[k as int]@)));
        k = k + 1;
    }
    assert(views(sorted@).take(sorted@.len() as int) =~= views(sorted@));
    quoted
}

/// The include and define flags handed to step commands as `{cflags}`.
pub fn build_step_flags(cflags: &[String], include_dirs: &[String], compiler: &str) -> (r: String)
    ensures
        step_flags_ok(r@, views(cflags@), views(include_dirs@), compiler@),
{
    let msvc = is_msvc_compiler(compiler) || any_slash_flag(cflags);
    let items = collect_step_items(cflags, include_dirs, msvc);
    let sorted = sort_dedup(&items);
    let quoted = quote_all(&sorted);
    let r = crate::text::join_exec(&quoted, " ");
    assert(strictly_sorted(views(sorted@)));
    r
}

/// A step whose input pattern matched several files must name its outputs
/// by `{stem}`.
pub fn check_step_inputs(step: &BuildStep, n_inputs: usize) -> (r: Result<(), String>)
    ensures
        r is Err <==> (n_inputs > 1 && !contains(step.output@, "{stem}"@)),
        r is Err ==> r->Err_0@ == "build.steps '"@ + step.name@ + "' output must include {stem} for multiple inputs"@,
{
    let needs_stem = contains_str(step.output.as_str(), "{stem}");
    if n_inputs > 1 && !needs_stem {
        return Err(concat3("build.steps '", step.name.as_str(), "' output must include {stem} for multiple inputs"));
    }
    Ok(())
}

/// The generator programs a step command may name.
#[derive(Debug)]
pub struct StepTools {
    pub uic: String,
    pub moc: String,
    pub rcc: String,
}

/// `{stem}` replaced by the input's stem.
pub open spec fn with_stem_spec(template: Seq<char>, stem: Seq<char>) -> Seq<char> {
    replace_all(template, "{stem}"@, stem)
}

/// Fills in `{stem}`.
pub fn with_stem(template: &str, stem: &str) -> (r: String)
    ensures
        r@ == with_stem_spec(template@, stem@),
{
    proof {
        reveal_strlit("{stem}");
    }
    replace_exec(template, "{stem}", stem)
}

/// A step command with its placeholders filled in, in this order: `{in}`,
/// `{out}`, `{uic}`, `{moc}`, `{rcc}`, `{cflags}`, `{stem}`. `template` has its
/// profile and version placeholders filled in already.
pub open spec fn step_command_spec(
    template: Seq<char>,
    input: Seq<char>,
    output: Seq<char>,
    tools: StepTools,
    flags: Seq<char>,
    stem: Seq<char>,
) -> Seq<char> {
    let a = replace_all(template, "{in}"@, input);
    let b = replace_all(a, "{out}"@, output);
    let c = replace_all(b, "{uic}"@, tools.uic@);
    let d = replace_all(c, "{moc}"@, tools.moc@);
    let e = replace_all(d, "{rcc}"@, tools.rcc@);
    let f = replace_all(e, "{cflags}"@, flags);
    replace_all(f, "{stem}"@, stem)
}

/// Fills in the placeholders of a step command.
pub fn step_command(
    template: &str,
    input: &str,
    output: &str,
    tools: &StepTools,
    flags: &str,
    stem: &str,
) -> (r: String)
    ensures
        r@ == step_command_spec(template@, input@, output@, *tools, flags@, stem@),
{
    proof {
        reveal_strlit("{in}");
        reveal_strlit("{out}");
        reveal_strlit("{uic}");
        reveal_strlit("{moc}");
        reveal_strlit("{rcc}");
        reveal_strlit("{cflags}");
        reveal_strlit("{stem}");
    }
    let a = replace_exec(template, "{in}", input);
    let b = replace_exec(a.as_str(), "{out}", output);
    let c = replace_exec(b.as_str(), "{uic}", tools.uic.as_str());
    let d = replace_exec(c.as_str(), "{moc}", tools.moc.as_str());
    let e = replace_exec(d.as_str(), "{rcc}", tools.rcc.as_str());
    let f = replace_exec(e.as_str(), "{cflags}", flags);
    replace_exec(f.as_str(), "{stem}", stem)
}

/// A step runs for an input unless both modification times are known and the
/// input is not newer than the output. Times are given in nanoseconds since
/// the Unix epoch.
pub open spec fn should_run_step_spec(input_time: Option<u128>, output_time: Option<u128>) -> bool {
    match (input_time, output_time) {
        (Some(i), Some(o)) => i > o,
        _ => true,
    }
}

/// Whether a step must run for an input.
pub fn should_run_step(input_time: Option<u128>, output_time: Option<u128>) -> (r: bool)
    ensures
        r == should_run_step_spec(input_time, output_time),
{
    match (input_time, output_time) {
        (Some(i), Some(o)) => i > o,
        _ => true,
    }
}

/// The error when an expected artifact is missing.
pub fn missing_expectation(expanded: &str) -> (r: String)
    ensures
        r@ == "Expected artifact not found: "@ + expanded@,
{
    concat2("Expected artifact not found: ", expanded)
}


/// A step's input, output or expected pattern: its profile and version
/// placeholders filled in, then `{stem}`.
pub fn expand_step_value(template: &str, stem: &str, profile: &str, info: &crate::cli::run::VersionInfo) -> (r: String)
    ensures
        r@ == with_stem_spec(crate::cli::run::substitute_run_vars_spec(template@, profile@, *info), stem@),
{
    let s = crate::cli::run::substitute_run_vars(template, profile, info);
    with_stem(s.as_str(), stem)
}

/// A step's command: its profile and version placeholders filled in, then
/// those of `step_command_spec`.
pub fn substitute_step_cmd(
    template: &str,
    input: &str,
    output: &str,
    tools: &StepTools,
    flags: &str,
    stem: &str,
    profile: &str,
    info: &crate::cli::run::VersionInfo,
) -> (r: String)
    ensures
        r@ == step_command_spec(
            crate::cli::run::substitute_run_vars_spec(template@, profile@, *info),
            input@,
            output@,
            *tools,
            flags@,
            stem@,
        ),
{
    let s = crate::cli::run::substitute_run_vars(template, profile, info);
    step_command(s.as_str(), input, output, tools, flags, stem)
}

} // verus!
