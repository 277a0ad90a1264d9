//! Platform-specific artifact paths.
//!
//! The build tool places artifacts differently per host operating system. The
//! host is passed explicitly as a [`Host`] value, which the program builds
//! once from the platform it was compiled for.
use vstd::prelude::*;

pub mod linux;
pub mod macos;
pub mod path_util;
pub mod posix;
pub mod windows;

verus! {

/// The operating system family of the machine the tool runs on.
#[derive(Clone, Copy, PartialEq, Eq, Structural, Debug)]
pub enum HostOs {
    Linux,
    Macos,
    Windows,
    /// Any other Unix-like system (the BSDs and the like).
    Other,
}

/// The host the tool runs on: its operating system and its target triple.
pub struct Host {
    pub os: HostOs,
    pub triple: String,
}

/// Views an optional string slice as an optional character sequence.
pub open spec fn opt_view(o: Option<&str>) -> Option<Seq<char>> {
    match o {
        Some(s) => Some(s@),
        None => None,
    }
}

/// Where a binary named `name` is placed on `host`.
pub open spec fn bin_path_spec(host: Host, profile: Seq<char>, name: Seq<char>, target_dir: Option<Seq<char>>) -> Seq<char> {
    match host.os {
        HostOs::Linux => linux::bin_path_spec(host.triple@, profile, name, target_dir),
        HostOs::Macos => macos::bin_path_spec(profile, name, target_dir),
        HostOs::Windows => windows::bin_path_spec(profile, name, target_dir),
        HostOs::Other => posix::bin_path_spec(profile, name, target_dir),
    }
}

/// Where a static library named `name` is placed on `host`.
pub open spec fn lib_path_spec(host: Host, profile: Seq<char>, name: Seq<char>, target_dir: Option<Seq<char>>) -> Seq<char> {
    match host.os {
        HostOs::Linux => linux::lib_path_spec(host.triple@, profile, name, target_dir),
        HostOs::Macos => macos::lib_path_spec(profile, name, target_dir),
        HostOs::Windows => windows::lib_path_spec(profile, name, target_dir),
        HostOs::Other => posix::lib_path_spec(profile, name, target_dir),
    }
}

/// Where a shared library named `name` is placed on `host`.
pub open spec fn shared_lib_path_spec(host: Host, profile: Seq<char>, name: Seq<char>, target_dir: Option<Seq<char>>) -> Seq<char> {
    match host.os {
        HostOs::Linux => linux::shared_lib_path_spec(host.triple@, profile, name, target_dir),
        HostOs::Macos => macos::shared_lib_path_spec(profile, name, target_dir),
        HostOs::Windows => windows::shared_lib_path_spec(profile, name, target_dir),
        HostOs::Other => posix::shared_lib_path_spec(profile, name, target_dir),
    }
}

/// Where an EFI image named `name` is placed on `host`.
pub open spec fn efi_path_spec(host: Host, profile: Seq<char>, name: Seq<char>, target_dir: Option<Seq<char>>) -> Seq<char> {
    match host.os {
        HostOs::Linux => linux::efi_path_spec(host.triple@, profile, name, target_dir),
        HostOs::Macos => macos::efi_path_spec(profile, name, target_dir),
        HostOs::Windows => windows::efi_path_spec(profile, name, target_dir),
        HostOs::Other => posix::efi_path_spec(profile, name, target_dir),
    }
}

/// Where an ELF image named `name` is placed on `host`.
pub open spec fn elf_path_spec(host: Host, profile: Seq<char>, name: Seq<char>, target_dir: Option<Seq<char>>) -> Seq<char> {
    bin_path_spec(host, profile, name, target_dir)
}

/// Binary path for the host platform.
pub fn bin_path(host: &Host, profile: &str, name: &str, target_dir: Option<&str>) -> (r: String)
    ensures
        r@ == bin_path_spec(*host, profile@, name@, opt_view(target_dir)),
{
    match host.os {
        HostOs::Linux => linux::bin_path(profile, name, target_dir, host.triple.as_str()),
        HostOs::Macos => macos::bin_path(profile, name, target_dir),
        HostOs::Windows => windows::bin_path(profile, name, target_dir),
        HostOs::Other => posix::bin_path(profile, name, target_dir),
    }
}

/// Static library path for the host platform.
pub fn lib_path(host: &Host, profile: &str, name: &str, target_dir: Option<&str>) -> (r: String)
    ensures
        r@ == lib_path_spec(*host, profile@, name@, opt_view(target_dir)),
{
    match host.os {
        HostOs::Linux => linux::lib_path(profile, name, target_dir, host.triple.as_str()),
        HostOs::Macos => macos::lib_path(profile, name, target_dir),
        HostOs::Windows => windows::lib_path(profile, name, target_dir),
        HostOs::Other => posix::lib_path(profile, name, target_dir),
    }
}

/// Shared library path for the host platform.
pub fn shared_lib_path(host: &Host, profile: &str, name: &str, target_dir: Option<&str>) -> (r: String)
    ensures
        r@ == shared_lib_path_spec(*host, profile@, name@, opt_view(target_dir)),
{
    match host.os {
        HostOs::Linux => linux::shared_lib_path(profile, name, target_dir, host.triple.as_str()),
        HostOs::Macos => macos::shared_lib_path(profile, name, target_dir),
        HostOs::Windows => windows::shared_lib_path(profile, name, target_dir),
        HostOs::Other => posix::shared_lib_path(profile, name, target_dir),
    }
}

/// EFI image path for the host platform.
pub fn efi_path(host: &Host, profile: &str, name: &str, target_dir: Option<&str>) -> (r: String)
    ensures
        r@ == efi_path_spec(*host, profile@, name@, opt_view(target_dir)),
{
    match host.os {
        HostOs::Linux => linux::efi_path(profile, name, target_dir, host.triple.as_str()),
        HostOs::Macos => macos::efi_path(profile, name, target_dir),
        HostOs::Windows => windows::efi_path(profile, name, target_dir),
        HostOs::Other => posix::efi_path(profile, name, target_dir),
    }
}

/// ELF image path for the host platform.
pub fn elf_path(host: &Host, profile: &str, name: &str, target_dir: Option<&str>) -> (r: String)
    ensures
        r@ == elf_path_spec(*host, profile@, name@, opt_view(target_dir)),
{
    bin_path(host, profile, name, target_dir)
}

} // verus!
