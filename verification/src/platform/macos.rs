//! Artifact paths on macOS hosts.
use vstd::prelude::*;

use super::path_util::{default_bin_rel, default_lib_rel, default_rel_spec, join_dir, join_dir_spec};
use crate::text::concat3;

verus! {

/// Binary location.
pub open spec fn bin_path_spec(profile: Seq<char>, name: Seq<char>, target_dir: Option<Seq<char>>) -> Seq<char> {
    match target_dir {
        Some(dir) => join_dir_spec(dir, name),
        None => default_rel_spec(profile, name, None),
    }
}

/// Location of a file in the library directory.
pub open spec fn lib_file_path_spec(profile: Seq<char>, file: Seq<char>, target_dir: Option<Seq<char>>) -> Seq<char> {
    match target_dir {
        Some(dir) => join_dir_spec(dir, file),
        None => default_rel_spec(profile, file, None),
    }
}

/// Static library location: `lib<name>.a`.
pub open spec fn lib_path_spec(profile: Seq<char>, name: Seq<char>, target_dir: Option<Seq<char>>) -> Seq<char> {
    lib_file_path_spec(profile, "lib"@ + name + ".a"@, target_dir)
}

/// EFI image location: `<name>.efi`.
pub open spec fn efi_path_spec(profile: Seq<char>, name: Seq<char>, target_dir: Option<Seq<char>>) -> Seq<char> {
    lib_file_path_spec(profile, name + ".efi"@, target_dir)
}

/// Shared library location: `lib<name>.dylib`.
pub open spec fn shared_lib_path_spec(profile: Seq<char>, name: Seq<char>, target_dir: Option<Seq<char>>) -> Seq<char> {
    lib_file_path_spec(profile, "lib"@ + name + ".dylib"@, target_dir)
}

fn lib_file_path(profile: &str, file: &str, target_dir: Option<&str>) -> (r: String)
    ensures
        r@ == lib_file_path_spec(profile@, file@, crate::platform::opt_view(target_dir)),
{
    match target_dir {
        Some(dir) => join_dir(dir, file),
        None => default_lib_rel(profile, file, None),
    }
}

/// Binary path.
pub fn bin_path(profile: &str, name: &str, target_dir: Option<&str>) -> (r: String)
    ensures
        r@ == bin_path_spec(profile@, name@, crate::platform::opt_view(target_dir)),
{
    match target_dir {
        Some(dir) => join_dir(dir, name),
        None => default_bin_rel(profile, name, None),
    }
}

/// Static library path.
pub fn lib_path(profile: &str, name: &str, target_dir: Option<&str>) -> (r: String)
    ensures
        r@ == lib_path_spec(profile@, name@, crate::platform::opt_view(target_dir)),
{
    let file = concat3("lib", name, ".a");
    lib_file_path(profile, file.as_str(), target_dir)
}

/// ELF image path (same as a binary).
pub fn elf_path(profile: &str, name: &str, target_dir: Option<&str>) -> (r: String)
    ensures
        r@ == bin_path_spec(profile@, name@, crate::platform::opt_view(target_dir)),
{
    bin_path(profile, name, target_dir)
}

/// EFI image path.
pub fn efi_path(profile: &str, name: &str, target_dir: Option<&str>) -> (r: String)
    ensures
        r@ == efi_path_spec(profile@, name@, crate::platform::opt_view(target_dir)),
{
    let file = crate::text::concat2(name, ".efi");
    lib_file_path(profile, file.as_str(), target_dir)
}

/// Shared library path.
pub fn shared_lib_path(profile: &str, name: &str, target_dir: Option<&str>) -> (r: String)
    ensures
        r@ == shared_lib_path_spec(profile@, name@, crate::platform::opt_view(target_dir)),
{
    let file = concat3("lib", name, ".dylib");
    lib_file_path(profile, file.as_str(), target_dir)
}

} // verus!
