//! Artifact paths on Windows hosts.
use vstd::prelude::*;

use super::path_util::{
    default_bin_rel, default_lib_rel, default_rel_spec, join_dir, join_dir_spec, with_exe_suffix,
    with_exe_suffix_spec,
};
use crate::text::{concat2, ends_with, has_suffix, lower, lower_exec};

verus! {

/// `name` unchanged when its lower-cased form ends with `suffix`, else `name` + `suffix`.
pub open spec fn ensure_suffix_spec(name: Seq<char>, suffix: Seq<char>) -> Seq<char> {
    if has_suffix(lower(name), suffix) {
        name
    } else {
        name + suffix
    }
}

/// Binary location: the name gets `.exe` unless it already has an extension.
pub open spec fn bin_path_spec(profile: Seq<char>, name: Seq<char>, target_dir: Option<Seq<char>>) -> Seq<char> {
    let file = with_exe_suffix_spec(name);
    match target_dir {
        Some(dir) => join_dir_spec(dir, file),
        None => default_rel_spec(profile, file, None),
    }
}

/// Location of a file in the library directory.
pub open spec fn lib_file_path_spec(profile: Seq<char>, file: Seq<char>, target_dir: Option<Seq<char>>) -> Seq<char> {
    match target_dir {
        Some(dir) => join_dir_spec(dir, file),
        None => default_rel_spec(profile, file, None),
    }
}

/// Static library location: `<name>.lib`.
pub open spec fn lib_path_spec(profile: Seq<char>, name: Seq<char>, target_dir: Option<Seq<char>>) -> Seq<char> {
    lib_file_path_spec(profile, ensure_suffix_spec(name, ".lib"@), target_dir)
}

/// EFI image location: `<name>.efi`.
pub open spec fn efi_path_spec(profile: Seq<char>, name: Seq<char>, target_dir: Option<Seq<char>>) -> Seq<char> {
    lib_file_path_spec(profile, ensure_suffix_spec(name, ".efi"@), target_dir)
}

/// Shared library location: `<name>.dll`.
pub open spec fn shared_lib_path_spec(profile: Seq<char>, name: Seq<char>, target_dir: Option<Seq<char>>) -> Seq<char> {
    lib_file_path_spec(profile, ensure_suffix_spec(name, ".dll"@), target_dir)
}

fn ensure_suffix(name: &str, suffix: &str) -> (r: String)
    ensures
        r@ == ensure_suffix_spec(name@, suffix@),
{
    let l = lower_exec(name);
    if ends_with(l.as_str(), suffix) {
        String::from_str(name)
    } else {
        concat2(name, suffix)
    }
}

fn lib_file_path(profile: &str, file: &str, target_dir: Option<&str>) -> (r: String)
    ensures
        r@ == lib_file_path_spec(profile@, file@, crate::platform::opt_view(target_dir)),
{
    match target_dir {
        Some(dir) => join_dir(dir, file),
        None => default_lib_rel(profile, file, None),
    }
}

/// Binary path.
pub fn bin_path(profile: &str, name: &str, target_dir: Option<&str>) -> (r: String)
    ensures
        r@ == bin_path_spec(profile@, name@, crate::platform::opt_view(target_dir)),
{
    let file = with_exe_suffix(name);
    match target_dir {
        Some(dir) => join_dir(dir, file.as_str()),
        None => default_bin_rel(profile, file.as_str(), None),
    }
}

/// Static library path.
pub fn lib_path(profile: &str, name: &str, target_dir: Option<&str>) -> (r: String)
    ensures
        r@ == lib_path_spec(profile@, name@, crate::platform::opt_view(target_dir)),
{
    let file = ensure_suffix(name, ".lib");
    lib_file_path(profile, file.as_str(), target_dir)
}

/// ELF image path (same as a binary).
pub fn elf_path(profile: &str, name: &str, target_dir: Option<&str>) -> (r: String)
    ensures
        r@ == bin_path_spec(profile@, name@, crate::platform::opt_view(target_dir)),
{
    bin_path(profile, name, target_dir)
}

/// EFI image path.
pub fn efi_path(profile: &str, name: &str, target_dir: Option<&str>) -> (r: String)
    ensures
        r@ == efi_path_spec(profile@, name@, crate::platform::opt_view(target_dir)),
{
    let file = ensure_suffix(name, ".efi");
    lib_file_path(profile, file.as_str(), target_dir)
}

/// Shared library path.
pub fn shared_lib_path(profile: &str, name: &str, target_dir: Option<&str>) -> (r: String)
    ensures
        r@ == shared_lib_path_spec(profile@, name@, crate::platform::opt_view(target_dir)),
{
    let file = ensure_suffix(name, ".dll");
    lib_file_path(profile, file.as_str(), target_dir)
}

} // verus!
