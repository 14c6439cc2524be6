//! Operating system and processor architecture of the running process.

use crate::text::str_eq;
use vstd::prelude::*;

verus! {

#[derive(Debug, Clone, Copy, PartialEq, Eq, Structural)]
pub enum Os {
    Windows,
    Linux,
    Macos,
    Other,
}

#[derive(Debug, Clone, Copy, PartialEq, Eq, Structural)]
pub enum Arch {
    X86_64,
    Aarch64,
    Other,
}

#[derive(Debug, Clone, Copy, PartialEq, Eq, Structural)]
pub struct Platform {
    pub os: Os,
    pub arch: Arch,
}

pub open spec fn os_of_name(name: Seq<char>) -> Os {
    if name == "windows"@ {
        Os::Windows
    } else if name == "linux"@ {
        Os::Linux
    } else if name == "macos"@ {
        Os::Macos
    } else {
        Os::Other
    }
}

pub open spec fn arch_of_name(name: Seq<char>) -> Arch {
    if name == "x86_64"@ {
        Arch::X86_64
    } else if name == "aarch64"@ {
        Arch::Aarch64
    } else {
        Arch::Other
    }
}

impl Os {
    /// Reads an operating system name as `std::env::consts::OS` spells it.
    pub fn from_name(name: &str) -> (r: Os)
        ensures
            r == os_of_name(name@),
    {
        if str_eq(name, "windows") {
            Os::Windows
        } else if str_eq(name, "linux") {
            Os::Linux
        } else if str_eq(name, "macos") {
            Os::Macos
        } else {
            Os::Other
        }
    }
}

impl Arch {
    /// Reads an architecture name as `std::env::consts::ARCH` spells it.
    pub fn from_name(name: &str) -> (r: Arch)
        ensures
            r == arch_of_name(name@),
    {
        if str_eq(name, "x86_64") {
            Arch::X86_64
        } else if str_eq(name, "aarch64") {
            Arch::Aarch64
        } else {
            Arch::Other
        }
    }
}

impl Platform {
    pub fn from_names(os: &str, arch: &str) -> (r: Platform)
        ensures
            r.os == os_of_name(os@),
            r.arch == arch_of_name(arch@),
    {
        Platform { os: Os::from_name(os), arch: Arch::from_name(arch) }
    }
}

} // verus!
