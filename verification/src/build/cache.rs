//! The build cache: the fingerprint of everything a build depends on, where
//! it is kept, and which files enter it.
use vstd::prelude::*;
use vstd::utf8::encode_utf8;
use sha2::Digest;

use crate::build::artifact::{resolve_artifact_path, resolve_artifact_path_spec};
use crate::build::builder::BuildContext;
use crate::paths::{extension, extension_exec, join, join_exec};
use crate::platform::{bin_path, bin_path_spec, opt_view, Host, HostOs};
use crate::text::{concat3, push_char, push_str_item, str_eq, trim, trim_exec, views};

verus! {

// ---------------------------------------------------------------------------
// Paths
// ---------------------------------------------------------------------------

/// Where the fingerprint of the last build is kept.
pub open spec fn build_cache_path_spec(profile: Seq<char>, target_dir: Option<Seq<char>>) -> Seq<char> {
    match target_dir {
        Some(dir) => join(dir, ".dcr-build.hash"@),
        None => join(join("./target"@, profile), ".dcr-build.hash"@),
    }
}

/// The file holding the fingerprint of the last build.
pub fn build_cache_path(profile: &str, target_dir: Option<&str>) -> (r: String)
    ensures
        r@ == build_cache_path_spec(profile@, opt_view(target_dir)),
{
    match target_dir {
        Some(dir) => join_exec(dir, ".dcr-build.hash"),
        None => {
            let t = join_exec("./target", profile);
            join_exec(t.as_str(), ".dcr-build.hash")
        },
    }
}

/// The main artifact of a build: its artifact path, or else where a binary
/// of that name would be.
pub open spec fn build_output_path_spec(host: Host, ctx: BuildContext) -> Seq<char> {
    match resolve_artifact_path_spec(
        host,
        ctx.kind@,
        ctx.profile@,
        ctx.project_name@,
        opt_view(ctx.target_dir),
        opt_view(ctx.output_filename),
        opt_view(ctx.output_extension),
    ) {
        Some(p) => p,
        None => bin_path_spec(
            host,
            ctx.profile@,
            match ctx.output_filename {
                Some(f) => f@,
                None => ctx.project_name@,
            },
            opt_view(ctx.target_dir),
        ),
    }
}

/// The path of the build's main artifact.
pub fn build_output_path(host: &Host, ctx: &BuildContext) -> (r: String)
    ensures
        r@ == build_output_path_spec(*host, *ctx),
{
    match resolve_artifact_path(
        host,
        ctx.kind,
        ctx.profile,
        ctx.project_name,
        ctx.target_dir,
        ctx.output_filename,
        ctx.output_extension,
    ) {
        Some(p) => p,
        None => {
            let name = match ctx.output_filename {
                Some(f) => f,
                None => ctx.project_name,
            };
            bin_path(host, ctx.profile, name, ctx.target_dir)
        },
    }
}

/// Header file extensions.
pub open spec fn is_header_ext(e: Seq<char>) -> bool {
    e == "h"@ || e == "hpp"@ || e == "hh"@ || e == "hxx"@ || e == "inc"@
}

/// The path names a header file by its extension.
pub open spec fn is_header_file_spec(path: Seq<char>) -> bool {
    match extension(path) {
        Some(e) => is_header_ext(e),
        None => false,
    }
}

/// Whether the path names a header file.
pub fn is_header_file(path: &str) -> (r: bool)
    ensures
        r == is_header_file_spec(path@),
{
    match extension_exec(path) {
        Some(e) => {
            let s = e.as_str();
            str_eq(s, "h") || str_eq(s, "hpp") || str_eq(s, "hh") || str_eq(s, "hxx") || str_eq(s, "inc")
        },
        None => false,
    }
}

/// The file names a library may have on the host.
pub open spec fn lib_candidates_spec(os: HostOs, name: Seq<char>) -> Seq<Seq<char>> {
    match os {
        HostOs::Windows => seq![name + ".lib"@],
        HostOs::Macos => seq!["lib"@ + name + ".a"@, "lib"@ + name + ".dylib"@, "lib"@ + name + ".so"@],
        _ => seq!["lib"@ + name + ".a"@, "lib"@ + name + ".so"@, "lib"@ + name + ".so.0"@],
    }
}

/// The file names a library may have on the host, in search order.
pub fn lib_candidates(os: HostOs, name: &str) -> (r: Vec<String>)
    ensures
        views(r@) == lib_candidates_spec(os, name@),
{
    let mut out: Vec<String> = Vec::new();
    match os {
        HostOs::Windows => {
            push_str_item(&mut out, crate::text::concat2(name, ".lib").as_str());
        },
        HostOs::Macos => {
            push_str_item(&mut out, concat3("lib", name, ".a").as_str());
            push_str_item(&mut out, concat3("lib", name, ".dylib").as_str());
            push_str_item(&mut out, concat3("lib", name, ".so").as_str());
        },
        _ => {
            push_str_item(&mut out, concat3("lib", name, ".a").as_str());
            push_str_item(&mut out, concat3("lib", name, ".so").as_str());
            push_str_item(&mut out, concat3("lib", name, ".so.0").as_str());
        },
    }
    assert(views(out@) =~= lib_candidates_spec(os, name@));
    out
}

// ---------------------------------------------------------------------------
// Fingerprint
// ---------------------------------------------------------------------------

/// A file's identity for the fingerprint: its path, size and modification
/// time (nanoseconds since the epoch, when known).
#[derive(Debug)]
pub struct FileStamp {
    pub path: String,
    pub len: u64,
    pub modified_nanos: Option<u128>,
}

/// The `n` low bytes of `v`, least significant first.
pub open spec fn le_bytes(v: int, n: nat) -> Seq<u8>
    decreases n,
{
    if n == 0 {
        Seq::empty()
    } else {
        seq![(v % 256) as u8] + le_bytes(v / 256, (n - 1) as nat)
    }
}

fn le_bytes_exec(v: u128, n: usize) -> (r: Vec<u8>)
    requires
        n <= 16,
    ensures
        r@ == le_bytes(v as int, n as nat),
{
    let mut out: Vec<u8> = Vec::new();
    let mut x: u128 = v;
    let mut i: usize = 0;
    let ghost k: int = v as int;
    while i < n
        invariant
            i <= n,
            x as int == (v as int) / pow256(i as nat),
            le_bytes(v as int, n as nat) == out@ + le_bytes(x as int, (n - i) as nat),
        decreases n - i,
    {
        let b: u8 = (x % 256) as u8;
        let ghost before = out@;
        out.push(b);
        proof {
            lemma_pow256_step(v as int, i as nat);
            assert(out@ =~= before.push(b));
            assert(before + le_bytes(x as int, (n - i) as nat) =~= out@ + le_bytes((x / 256) as int, (n - i - 1) as nat));
        }
        x = x / 256;
        i = i + 1;
    }
    assert(le_bytes(x as int, 0) =~= Seq::<u8>::empty());
    assert(out@ + Seq::<u8>::empty() =~= out@);
    out
}

/// `256^n`.
pub open spec fn pow256(n: nat) -> int
    decreases n,
{
    if n == 0 {
        1
    } else {
        256 * pow256((n - 1) as nat)
    }
}

proof fn lemma_pow256_positive(n: nat)
    ensures
        pow256(n) > 0,
    decreases n,
{
    if n > 0 {
        lemma_pow256_positive((n - 1) as nat);
    }
}

proof fn lemma_pow256_step(v: int, i: nat)
    requires
        v >= 0,
    ensures
        (v / pow256(i)) / 256 == v / pow256(i + 1),
{
    lemma_pow256_positive(i);
    assert(pow256(i + 1) == 256 * pow256(i));
    vstd::arithmetic::div_mod::lemma_div_denominator(v, pow256(i), 256);
    assert(pow256(i) * 256 == 256 * pow256(i)) by (nonlinear_arith);
}

/// The bytes of a string in UTF-8.
pub open spec fn utf8(s: Seq<char>) -> Seq<u8> {
    encode_utf8(s)
}

/// The bytes a file contributes: its path, its size (8 bytes), and its
/// modification time (16 bytes) when known.
pub open spec fn stamp_bytes(f: FileStamp) -> Seq<u8> {
    utf8(f.path@) + le_bytes(f.len as int, 8) + match f.modified_nanos {
        Some(t) => le_bytes(t as int, 16),
        None => Seq::empty(),
    }
}

/// The bytes of a list of strings, one after another.
pub open spec fn strings_bytes(v: Seq<Seq<char>>) -> Seq<u8>
    decreases v.len(),
{
    if v.len() == 0 {
        Seq::empty()
    } else {
        strings_bytes(v.drop_last()) + utf8(v.last())
    }
}

/// The bytes of a list of file stamps, one after another.
pub open spec fn stamps_bytes(v: Seq<FileStamp>) -> Seq<u8>
    decreases v.len(),
{
    if v.len() == 0 {
        Seq::empty()
    } else {
        stamps_bytes(v.drop_last()) + stamp_bytes(v.last())
    }
}

/// The bytes of an optional string (none for `None`).
pub open spec fn opt_bytes(o: Option<&str>) -> Seq<u8> {
    match o {
        Some(s) => utf8(s@),
        None => Seq::empty(),
    }
}

/// Everything the fingerprint covers, in order: the build settings, the
/// manifest and lock file text, and the stamps of the files.
pub open spec fn fingerprint_bytes_spec(ctx: BuildContext, toml: Seq<char>, lock: Option<Seq<char>>, files: Seq<FileStamp>) -> Seq<u8> {
    utf8(ctx.profile@) + utf8(ctx.project_name@) + utf8(ctx.compiler@) + utf8(ctx.language@) + utf8(ctx.standard@)
        + utf8(ctx.kind@) + opt_bytes(ctx.target_dir) + opt_bytes(ctx.platform) + opt_bytes(ctx.linker) + opt_bytes(
        ctx.archiver,
    ) + strings_bytes(views(ctx.include_dirs@)) + strings_bytes(views(ctx.lib_dirs@)) + strings_bytes(views(ctx.libs@))
        + strings_bytes(views(ctx.cflags@)) + strings_bytes(views(ctx.ldflags@)) + utf8(toml) + match lock {
        Some(l) => utf8(l),
        None => Seq::empty(),
    } + stamps_bytes(files)
}

fn push_bytes(out: &mut Vec<u8>, s: &str)
    ensures
        final(out)@ == old(out)@ + utf8(s@),
{
    let b = s.as_bytes();
    let mut i: usize = 0;
    let ghost start = out@;
    while i < b.len()
        invariant
            i <= b@.len(),
            b@ == encode_utf8(s@),
            out@ == start + b@.take(i as int),
        decreases b.len() - i,
    {
        out.push(b[i]);
        assert(b@.take(i + 1) =~= b@.take(i as int).push(b@[i as int]));
        i = i + 1;
    }
    assert(b@.take(b@.len() as int) =~= b@);
}

fn push_opt_bytes(out: &mut Vec<u8>, o: Option<&str>)
    ensures
        final(out)@ == old(out)@ + opt_bytes(o),
{
    match o {
        Some(s) => push_bytes(out, s),
        None => {
            assert(out@ =~= out@ + Seq::<u8>::empty());
        },
    }
}

fn push_strings_bytes(out: &mut Vec<u8>, v: &[String])
    ensures
        final(out)@ == old(out)@ + strings_bytes(views(v@)),
{
    let ghost start = out@;
    let mut i: usize = 0;
    while i < v.len()
        invariant
            i <= v@.len(),
            out@ == start + strings_bytes(views(v@).take(i as int)),
        decreases v.len() - i,
    {
        assert(views(v@).take(i + 1).drop_last() =~= views(v@).take(i as int));
        push_bytes(out, v[i].as_str());
        i = i + 1;
    }
    assert(views(v@).take(v@.len() as int) =~= views(v@));
}

fn push_all_bytes(out: &mut Vec<u8>, b: &Vec<u8>)
    ensures
        final(out)@ == old(out)@ + b@,
{
    let ghost start = out@;
    let mut i: usize = 0;
    while i < b.len()
        invariant
            i <= b@.len(),
            out@ == start + b@.take(i as int),
        decreases b.len() - i,
    {
        out.push(b[i]);
        assert(b@.take(i + 1) =~= b@.take(i as int).push(b@[i as int]));
        i = i + 1;
    }
    assert(b@.take(b@.len() as int) =~= b@);
}

fn push_stamps(out: &mut Vec<u8>, files: &[FileStamp])
    ensures
        final(out)@ == old(out)@ + stamps_bytes(files@),
{
    let ghost start = out@;
    let mut i: usize = 0;
    while i < files.len()
        invariant
            i <= files@.len(),
            out@ == start + stamps_bytes(files@.take(i as int)),
        decreases files.len() - i,
    {
        assert(files@.take(i + 1).drop_last() =~= files@.take(i as int));
        let f = &files[i];
        let ghost before = out@;
        push_bytes(out, f.path.as_str());
        let lb = le_bytes_exec(f.len as u128, 8);
        push_all_bytes(out, &lb);
        match f.modified_nanos {
            Some(t) => {
                let tb = le_bytes_exec(t, 16);
                push_all_bytes(out, &tb);
            },
            None => {},
        }
        assert(out@ =~= before + stamp_bytes(*f));
        i = i + 1;
    }
    assert(files@.take(files@.len() as int) =~= files@);
}

/// The bytes the fingerprint is computed from.
pub fn fingerprint_bytes(ctx: &BuildContext, toml: &str, lock: Option<&str>, files: &[FileStamp]) -> (r: Vec<u8>)
    ensures
        r@ == fingerprint_bytes_spec(*ctx, toml@, opt_view(lock), files@),
{
    let mut out: Vec<u8> = Vec::new();
    push_bytes(&mut out, ctx.profile);
    push_bytes(&mut out, ctx.project_name);
    push_bytes(&mut out, ctx.compiler);
    push_bytes(&mut out, ctx.language);
    push_bytes(&mut out, ctx.standard);
    push_bytes(&mut out, ctx.kind);
    push_opt_bytes(&mut out, ctx.target_dir);
    push_opt_bytes(&mut out, ctx.platform);
    push_opt_bytes(&mut out, ctx.linker);
    push_opt_bytes(&mut out, ctx.archiver);
    push_strings_bytes(&mut out, ctx.include_dirs);
    push_strings_bytes(&mut out, ctx.lib_dirs);
    push_strings_bytes(&mut out, ctx.libs);
    push_strings_bytes(&mut out, ctx.cflags);
    push_strings_bytes(&mut out, ctx.ldflags);
    push_bytes(&mut out, toml);
    push_opt_bytes(&mut out, lock);
    push_stamps(&mut out, files);
    proof {
        let s = fingerprint_bytes_spec(*ctx, toml@, opt_view(lock), files@);
        assert(opt_bytes(lock) == match opt_view(lock) {
            Some(l) => utf8(l),
            None => Seq::<u8>::empty(),
        });
        assert(out@ =~= s);
    }
    out
}

/// The SHA-256 digest of `data` (FIPS 180-4).
pub uninterp spec fn sha256_digest(data: Seq<u8>) -> Seq<u8>;

/// Calls `sha2::Sha256::digest`: the result is the SHA-256 digest of `data`,
/// which is 32 bytes long.
#[verifier::external_body]
fn sha256(data: &[u8]) -> (r: Vec<u8>)
    ensures
        r@ == sha256_digest(data@),
        r@.len() == 32,
{
    sha2::Sha256::digest(data).to_vec()
}

/// A lower-case hexadecimal digit.
pub open spec fn hex_char(d: int) -> char {
    crate::cli::gen::hex_digit(d)
}

/// Each byte as two lower-case hexadecimal digits.
pub open spec fn hex_spec(b: Seq<u8>) -> Seq<char>
    decreases b.len(),
{
    if b.len() == 0 {
        Seq::empty()
    } else {
        hex_spec(b.drop_last()) + seq![hex_char((b.last() / 16) as int), hex_char((b.last() % 16) as int)]
    }
}

fn hex_char_exec(d: u8) -> (r: char)
    requires
        d < 16,
    ensures
        r == hex_char(d as int),
{
    if d < 10 {
        ((48 + d) as u8) as char
    } else {
        ((97 + d - 10) as u8) as char
    }
}

/// Writes bytes as lower-case hexadecimal.
pub fn to_hex(bytes: &[u8]) -> (r: String)
    ensures
        r@ == hex_spec(bytes@),
{
    let mut out = String::new();
    let mut i: usize = 0;
    while i < bytes.len()
        invariant
            i <= bytes@.len(),
            out@ == hex_spec(bytes@.take(i as int)),
        decreases bytes.len() - i,
    {
        assert(bytes@.take(i + 1).drop_last() =~= bytes@.take(i as int));
        let b = bytes[i];
        let ghost before = out@;
        push_char(&mut out, hex_char_exec(b / 16));
        push_char(&mut out, hex_char_exec(b % 16));
        assert(out@ =~= before + seq![hex_char((b / 16) as int), hex_char((b % 16) as int)]);
        i = i + 1;
    }
    assert(bytes@.take(bytes@.len() as int) =~= bytes@);
    out
}

/// The fingerprint of a build: the SHA-256 of its inputs, in hexadecimal.
pub fn compute_build_fingerprint(ctx: &BuildContext, toml: &str, lock: Option<&str>, files: &[FileStamp]) -> (r: String)
    ensures
        r@ == hex_spec(sha256_digest(fingerprint_bytes_spec(*ctx, toml@, opt_view(lock), files@))),
        r@.len() == 64,
{
    let data = fingerprint_bytes(ctx, toml, lock, files);
    let digest = sha256(data.as_slice());
    proof {
        lemma_hex_len(digest@);
    }
    to_hex(digest.as_slice())
}

proof fn lemma_hex_len(b: Seq<u8>)
    ensures
        hex_spec(b).len() == 2 * b.len(),
    decreases b.len(),
{
    if b.len() > 0 {
        lemma_hex_len(b.drop_last());
    }
}

/// The build can be skipped when the saved fingerprint, trimmed, is the fresh one.
pub fn fingerprint_matches(cached: &str, fingerprint: &str) -> (r: bool)
    ensures
        r == (trim(cached@) == fingerprint@),
{
    let t = trim_exec(cached);
    str_eq(t.as_str(), fingerprint)
}

/// The text saved in the cache file.
pub fn fingerprint_file_text(fingerprint: &str) -> (r: String)
    ensures
        r@ == fingerprint@ + "\n"@,
{
    crate::text::concat2(fingerprint, "\n")
}

proof fn lemma_hex_not_whitespace(b: Seq<u8>)
    ensures
        forall|i: int| 0 <= i < hex_spec(b).len() ==> !crate::text::is_whitespace(#[trigger] hex_spec(b)[i]),
    decreases b.len(),
{
    if b.len() > 0 {
        lemma_hex_not_whitespace(b.drop_last());
        let h = hex_spec(b.drop_last());
        let hi = (b.last() / 16) as int;
        let lo = (b.last() % 16) as int;
        assert(0 <= hi < 16 && 0 <= lo < 16);
        assert(!crate::text::is_whitespace(hex_char(hi)));
        assert(!crate::text::is_whitespace(hex_char(lo)));
        assert forall|i: int| 0 <= i < hex_spec(b).len() implies !crate::text::is_whitespace(#[trigger] hex_spec(b)[i]) by {
            if i < h.len() {
                assert(hex_spec(b)[i] == h[i]);
            }
        }
    }
}

/// A fingerprint saved to the cache file is recognised when the file is read
/// back: the saved text, trimmed, is the fingerprint.
pub proof fn lemma_saved_fingerprint_matches(b: Seq<u8>)
    ensures
        crate::text::trim(hex_spec(b) + "\n"@) == hex_spec(b),
{
    reveal_strlit("\n");
    lemma_hex_not_whitespace(b);
    let h = hex_spec(b);
    let t = h + "\n"@;
    assert("\n"@ =~= seq!['\n']);
    assert(crate::text::is_whitespace('\n'));
    if h.len() == 0 {
        assert(t =~= seq!['\n']);
        assert(t.drop_first() =~= Seq::<char>::empty());
        reveal_with_fuel(crate::text::trim_start, 2);
        assert(crate::text::trim_start(t) == Seq::<char>::empty());
        assert(crate::text::trim_end(Seq::<char>::empty()) == Seq::<char>::empty());
        assert(h =~= Seq::<char>::empty());
    } else {
        assert(t[0] == h[0]);
        assert(crate::text::trim_start(t) == t);
        assert(t.last() == '\n');
        assert(t.drop_last() =~= h);
        assert(!crate::text::is_whitespace(h.last()));
        assert(crate::text::trim_end(h) == h);
        assert(crate::text::trim_end(t) == h);
    }
}


/// The include directories that lie inside the project root.
pub open spec fn inside_root(dirs: Seq<Seq<char>>, root: Seq<char>) -> Seq<Seq<char>> {
    dirs.filter(|d: Seq<char>| crate::paths::starts_with(d, root))
}

/// Where the headers of a build are looked for: its source roots (`src`
/// under the root when it has none), then those of its include directories
/// (as found on disk) that lie inside the project root.
pub open spec fn header_roots_spec(source_roots: Seq<Seq<char>>, include_dirs: Seq<Seq<char>>, root: Seq<char>) -> Seq<Seq<char>> {
    let base = if source_roots.len() == 0 {
        seq![join(root, "src"@)]
    } else {
        source_roots
    };
    base + inside_root(include_dirs, root)
}

/// The directories searched for the headers of a build (see `header_roots_spec`).
pub fn header_roots(source_roots: &[String], include_dirs: &[String], root: &str) -> (r: Vec<String>)
    ensures
        views(r@) == header_roots_spec(views(source_roots@), views(include_dirs@), root@),
{
    let mut out: Vec<String> = Vec::new();
    if source_roots.len() == 0 {
        let s = join_exec(root, "src");
        out.push(s);
        assert(views(out@) =~= seq![join(root@, "src"@)]);
    } else {
        out = crate::text::clone_strings(source_roots);
    }
    let ghost base = views(out@);
    let ghost dirs = views(include_dirs@);
    let mut i: usize = 0;
    assert(dirs.take(0) =~= Seq::<Seq<char>>::empty());
    proof {
        reveal_with_fuel(Seq::filter, 1);
    }
    assert(inside_root(dirs.take(0), root@) =~= Seq::<Seq<char>>::empty());
    assert(views(out@) =~= base + inside_root(dirs.take(0), root@));
    while i < include_dirs.len()
        invariant
            i <= include_dirs@.len(),
            dirs == views(include_dirs@),
            views(out@) == base + inside_root(dirs.take(i as int), root@),
        decreases include_dirs.len() - i,
    {
        let ghost before = views(out@);
        assert(dirs.take(i + 1).drop_last() =~= dirs.take(i as int));
        assert(dirs.take(i + 1).last() == include_dirs@[i as int]@);
        proof {
            reveal_with_fuel(Seq::filter, 1);
        }
        if crate::paths::starts_with_exec(include_dirs[i].as_str(), root) {
            out.push(include_dirs[i].clone());
            assert(views(out@) =~= before.push(include_dirs@[i as int]@));
        }
        i = i + 1;
    }
    assert(dirs.take(include_dirs@.len() as int) =~= dirs);
    out
}


/// A lower-case hexadecimal digit.
pub open spec fn is_hex_digit(c: char) -> bool {
    ('0' <= c && c <= '9') || ('a' <= c && c <= 'f')
}

/// The hexadecimal form of bytes has two lower-case hexadecimal digits per
/// byte; so a fingerprint, the form of a 32-byte digest, is 64 of them.
pub proof fn lemma_hex_digits(b: Seq<u8>)
    ensures
        hex_spec(b).len() == 2 * b.len(),
        forall|i: int| 0 <= i < hex_spec(b).len() ==> is_hex_digit(#[trigger] hex_spec(b)[i]),
    decreases b.len(),
{
    if b.len() > 0 {
        lemma_hex_digits(b.drop_last());
        let h = hex_spec(b.drop_last());
        let x = b.last();
        let hi = hex_char((x / 16) as int);
        let lo = hex_char((x % 16) as int);
        assert(is_hex_digit(hi)) by {
            assert((x / 16) < 16);
        }
        assert(is_hex_digit(lo));
        let r = h + seq![hi, lo];
        assert forall|i: int| 0 <= i < r.len() implies is_hex_digit(#[trigger] r[i]) by {
            if i < h.len() {
                assert(r[i] == h[i]);
            }
        }
    }
}

} // verus!
