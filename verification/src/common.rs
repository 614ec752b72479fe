//! Common types: package-manager commands, packages, formats and the errors of parsing.
use vstd::prelude::*;
use vstd::string::*;

use crate::text::{eq_ignore_ascii_case, str_eq_ignore_ascii_case};

verus! {

/// Representation of a package manager command.
///
/// All the variants are the kinds of command that a package manager (should) support.
#[derive(Debug, Clone, Copy, PartialEq, Eq, Hash, Structural)]
pub enum Cmd {
    Install,
    Uninstall,
    Update,
    UpdateAll,
    List,
    Sync,
    AddRepo,
    Search,
    Outdated,
}

/// Available package manager.
#[derive(Debug, Clone, Copy, PartialEq, Eq, Hash, Structural)]
pub enum AvailablePackageManager {
    Apt,
    Brew,
    Choco,
    Dnf,
    Flatpak,
    Yum,
    Zypper,
}

/// Operation type to execute on a package.
#[derive(Debug, Clone, Copy, PartialEq, Eq, Hash, Structural)]
pub enum Operation {
    Install,
    Uninstall,
    Update,
}

/// Package format.
#[derive(Debug, Clone, Copy, PartialEq, Eq, Hash, Structural)]
pub enum PkgFormat {
    Bottle,
    Exe,
    Msi,
    Rpm,
    Deb,
    Flatpak,
}

/// The file extension of each package format.
pub open spec fn format_extension(f: PkgFormat) -> Seq<char> {
    match f {
        PkgFormat::Bottle => "tar.gz"@,
        PkgFormat::Exe => "exe"@,
        PkgFormat::Msi => "msi"@,
        PkgFormat::Rpm => "rpm"@,
        PkgFormat::Deb => "deb"@,
        PkgFormat::Flatpak => "flatpak"@,
    }
}

impl PkgFormat {
    /// File extension of package.
    pub fn file_extention(&self) -> (res: String)
        ensures
            res@ == format_extension(*self),
    {
        match self {
            PkgFormat::Bottle => "tar.gz",
            PkgFormat::Exe => "exe",
            PkgFormat::Msi => "msi",
            PkgFormat::Rpm => "rpm",
            PkgFormat::Deb => "deb",
            PkgFormat::Flatpak => "flatpak",
        }.to_owned()
    }
}

/// The name under which each package manager is displayed and parsed.
pub open spec fn manager_name(m: AvailablePackageManager) -> Seq<char> {
    match m {
        AvailablePackageManager::Apt => "Apt"@,
        AvailablePackageManager::Brew => "Brew"@,
        AvailablePackageManager::Choco => "Choco"@,
        AvailablePackageManager::Dnf => "Dnf"@,
        AvailablePackageManager::Flatpak => "Flatpak"@,
        AvailablePackageManager::Yum => "Yum"@,
        AvailablePackageManager::Zypper => "Zypper"@,
    }
}

/// All package managers, in declaration order.
pub open spec fn all_managers() -> Seq<AvailablePackageManager> {
    seq![
        AvailablePackageManager::Apt,
        AvailablePackageManager::Brew,
        AvailablePackageManager::Choco,
        AvailablePackageManager::Dnf,
        AvailablePackageManager::Flatpak,
        AvailablePackageManager::Yum,
        AvailablePackageManager::Zypper,
    ]
}

/// The first package manager, in declaration order, whose name equals `s` up to ASCII case.
pub open spec fn manager_from_name(s: Seq<char>) -> Option<AvailablePackageManager> {
    if eq_ignore_ascii_case(s, "Apt"@) {
        Some(AvailablePackageManager::Apt)
    } else if eq_ignore_ascii_case(s, "Brew"@) {
        Some(AvailablePackageManager::Brew)
    } else if eq_ignore_ascii_case(s, "Choco"@) {
        Some(AvailablePackageManager::Choco)
    } else if eq_ignore_ascii_case(s, "Dnf"@) {
        Some(AvailablePackageManager::Dnf)
    } else if eq_ignore_ascii_case(s, "Flatpak"@) {
        Some(AvailablePackageManager::Flatpak)
    } else if eq_ignore_ascii_case(s, "Yum"@) {
        Some(AvailablePackageManager::Yum)
    } else if eq_ignore_ascii_case(s, "Zypper"@) {
        Some(AvailablePackageManager::Zypper)
    } else {
        None
    }
}

impl AvailablePackageManager {
    /// The number of package managers.
    pub const COUNT: usize = 7;

    /// The displayed name of the package manager.
    pub fn display_name(&self) -> (res: String)
        ensures
            res@ == manager_name(*self),
    {
        match self {
            AvailablePackageManager::Apt => "Apt",
            AvailablePackageManager::Brew => "Brew",
            AvailablePackageManager::Choco => "Choco",
            AvailablePackageManager::Dnf => "Dnf",
            AvailablePackageManager::Flatpak => "Flatpak",
            AvailablePackageManager::Yum => "Yum",
            AvailablePackageManager::Zypper => "Zypper",
        }.to_owned()
    }

    /// The package manager named `s`, with ASCII letters compared without case.
    pub fn from_name(s: &str) -> (res: Option<AvailablePackageManager>)
        ensures
            res == manager_from_name(s@),
    {
        if str_eq_ignore_ascii_case(s, "Apt") {
            Some(AvailablePackageManager::Apt)
        } else if str_eq_ignore_ascii_case(s, "Brew") {
            Some(AvailablePackageManager::Brew)
        } else if str_eq_ignore_ascii_case(s, "Choco") {
            Some(AvailablePackageManager::Choco)
        } else if str_eq_ignore_ascii_case(s, "Dnf") {
            Some(AvailablePackageManager::Dnf)
        } else if str_eq_ignore_ascii_case(s, "Flatpak") {
            Some(AvailablePackageManager::Flatpak)
        } else if str_eq_ignore_ascii_case(s, "Yum") {
            Some(AvailablePackageManager::Yum)
        } else if str_eq_ignore_ascii_case(s, "Zypper") {
            Some(AvailablePackageManager::Zypper)
        } else {
            None
        }
    }

    /// All package managers, in declaration order.
    pub fn all() -> (res: Vec<AvailablePackageManager>)
        ensures
            res@ == all_managers(),
    {
        let res = vec![
            AvailablePackageManager::Apt,
            AvailablePackageManager::Brew,
            AvailablePackageManager::Choco,
            AvailablePackageManager::Dnf,
            AvailablePackageManager::Flatpak,
            AvailablePackageManager::Yum,
            AvailablePackageManager::Zypper,
        ];
        assert(res@ =~= all_managers());
        res
    }
}

} // verus!
