//! Assembly builds: the language check of the assembler backends, the
//! assembler used, and where each source's output goes.
use vstd::prelude::*;

use crate::build::artifact::{artifact_dir_spec, flat_source_output_path_spec};
use crate::build::builder::BuildContext;
use crate::build::common::object_path_spec;
use crate::paths::join;
use crate::platform::opt_view;
use crate::text::{concat2, lower, lower_exec, str_eq, trim, trim_exec, views};

verus! {

/// The parts of `s` between commas from position `i` on (empty parts kept),
/// `cur` being the part read so far.
pub open spec fn comma_parts_from(s: Seq<char>, i: int, done: Seq<Seq<char>>, cur: Seq<char>) -> Seq<Seq<char>>
    decreases s.len() - i,
{
    if i < 0 || i >= s.len() {
        done.push(cur)
    } else if s[i] == ',' {
        comma_parts_from(s, i + 1, done.push(cur), Seq::empty())
    } else {
        comma_parts_from(s, i + 1, done, cur.push(s[i]))
    }
}

/// `str::split(',')`.
pub open spec fn comma_parts(s: Seq<char>) -> Seq<Seq<char>> {
    comma_parts_from(s, 0, Seq::empty(), Seq::empty())
}

/// A language name the assembler backends accept.
pub open spec fn is_asm_language(t: Seq<char>) -> bool {
    t == "asm"@ || t == "llvm_ir"@ || t == "llvm-ir"@ || t == "ll"@
}

/// Every comma-separated language, lower-cased and trimmed, is assembly or
/// LLVM IR.
pub open spec fn asm_language_ok_spec(language: Seq<char>) -> bool {
    let parts = comma_parts(lower(language));
    forall|k: int| 0 <= k < parts.len() ==> is_asm_language(trim(#[trigger] parts[k]))
}

/// The error of an assembler backend given another language.
pub open spec fn asm_language_error(backend: Seq<char>) -> Seq<char> {
    backend + " backend requires build.language = \"asm\" (or llvm_ir for LLC)"@
}

fn split_commas(s: &str) -> (r: Vec<String>)
    ensures
        views(r@) == comma_parts(s@),
{
    let v = crate::text::chars_of(s);
    let mut out: Vec<String> = Vec::new();
    let mut cur: Vec<char> = Vec::new();
    let mut i: usize = 0;
    assert(views(out@) =~= Seq::<Seq<char>>::empty());
    while i < v.len()
        invariant
            v@ == s@,
            i <= v@.len(),
            comma_parts(s@) == comma_parts_from(s@, i as int, views(out@), cur@),
        decreases v.len() - i,
    {
        if v[i] == ',' {
            let part = crate::text::string_of(&cur);
            let ghost before = views(out@);
            out.push(part);
            assert(views(out@) =~= before.push(cur@));
            cur = Vec::new();
            assert(cur@ =~= Seq::<char>::empty());
        } else {
            cur.push(v[i]);
        }
        i = i + 1;
    }
    let part = crate::text::string_of(&cur);
    let ghost before = views(out@);
    out.push(part);
    assert(views(out@) =~= before.push(cur@));
    out
}

/// Checks that an assembler backend builds an assembly (or LLVM IR) project.
/// Languages are compared after ASCII lower-casing: no non-ASCII character
/// lower-cases to a letter of the accepted names.
pub fn check_asm_language(language: &str, backend: &str) -> (r: Result<(), String>)
    ensures
        asm_language_ok_spec(language@) ==> r is Ok,
        !asm_language_ok_spec(language@) ==> r is Err && r->Err_0@ == asm_language_error(backend@),
{
    let l = lower_exec(language);
    let parts = split_commas(l.as_str());
    let ghost ps = views(parts@);
    let mut i: usize = 0;
    while i < parts.len()
        invariant
            ps == views(parts@),
            ps == comma_parts(lower(language@)),
            i <= parts@.len(),
            forall|k: int| 0 <= k < i ==> is_asm_language(trim(#[trigger] ps[k])),
        decreases parts.len() - i,
    {
        let t = trim_exec(parts[i].as_str());
        let t = t.as_str();
        if !(str_eq(t, "asm") || str_eq(t, "llvm_ir") || str_eq(t, "llvm-ir") || str_eq(t, "ll")) {
            assert(!is_asm_language(trim(ps[i as int])));
            return Err(concat2(backend, " backend requires build.language = \"asm\" (or llvm_ir for LLC)"));
        }
        i = i + 1;
    }
    Ok(())
}

/// The assembler run: the configured compiler, or the backend's default.
pub open spec fn assembler_spec(compiler: Seq<char>, default_assembler: Seq<char>) -> Seq<char> {
    if compiler.len() == 0 {
        default_assembler
    } else {
        compiler
    }
}

/// The assembler a backend runs.
pub fn assembler<'a>(compiler: &'a str, default_assembler: &'a str) -> (r: &'a str)
    ensures
        r@ == assembler_spec(compiler@, default_assembler@),
{
    if compiler.is_empty() {
        default_assembler
    } else {
        compiler
    }
}

/// Where object files go: `obj` under the artifact directory.
pub open spec fn obj_dir_spec(ctx: BuildContext) -> Seq<char> {
    join(artifact_dir_spec(ctx.profile@, opt_view(ctx.target_dir)), "obj"@)
}

/// The object directory of a build.
pub fn obj_dir(ctx: &BuildContext) -> (r: String)
    ensures
        r@ == obj_dir_spec(*ctx),
{
    let d = crate::build::artifact::artifact_dir(ctx);
    crate::paths::join_exec(d.as_str(), "obj")
}

/// The output of each source: the flat image itself when the assembler emits
/// flat images directly, else an object file under the object directory.
pub open spec fn asm_outputs_spec(ctx: BuildContext, sources: Seq<Seq<char>>, direct_flat: bool) -> Seq<Seq<char>> {
    if direct_flat {
        sources.map_values(|s: Seq<char>| flat_source_output_path_spec(ctx, s))
    } else {
        sources.map_values(|s: Seq<char>| object_path_spec(obj_dir_spec(ctx), s, "o"@))
    }
}

/// Where the assembler writes each source's output.
pub fn asm_outputs(ctx: &BuildContext, sources: &[String], direct_flat: bool) -> (r: Vec<String>)
    ensures
        views(r@) == asm_outputs_spec(*ctx, views(sources@), direct_flat),
{
    proof {
        reveal_strlit("o");
        reveal_strlit(".");
        assert("o"@ =~= seq!['o']);
        assert("."@ =~= seq!['.']);
        assert("o"@.subrange(0, 1)[0] == 'o');
        assert(!crate::text::has_prefix("o"@, "."@));
        assert(crate::text::trim_start_matches("o"@, "."@) == "o"@);
        assert(!crate::text::has_char("o"@, '/'));
    }
    let dir = obj_dir(ctx);
    let mut out: Vec<String> = Vec::new();
    let mut i: usize = 0;
    while i < sources.len()
        invariant
            dir@ == obj_dir_spec(*ctx),
            i <= sources@.len(),
            crate::build::common::extension_ok("o"@),
            views(out@) == asm_outputs_spec(*ctx, views(sources@).take(i as int), direct_flat),
        decreases sources.len() - i,
    {
        let s = sources[i].as_str();
        let p = if direct_flat {
            crate::build::artifact::flat_source_output_path(ctx, s)
        } else {
            crate::build::common::object_path(dir.as_str(), s, "o")
        };
        let ghost before = views(out@);
        out.push(p);
        assert(views(out@) =~= before.push(p@));
        assert(views(sources@).take(i + 1) =~= views(sources@).take(i as int).push(s@));
        assert(asm_outputs_spec(*ctx, views(sources@).take(i + 1), direct_flat) =~= asm_outputs_spec(
            *ctx,
            views(sources@).take(i as int),
            direct_flat,
        ).push(p@));
        i = i + 1;
    }
    assert(views(sources@).take(sources@.len() as int) =~= views(sources@));
    out
}

} // verus!
