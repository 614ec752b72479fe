//! Homebrew: its command names, delimiter and package formats.
use vstd::prelude::*;
use vstd::string::*;

use crate::common::{manager_name, AvailablePackageManager, Cmd, PkgFormat};
use crate::package::Package;
use crate::text::{ascii_lowercase, lower_text};

verus! {

/// Wrapper for the Homebrew package manager.
///
/// [Homebrew — The Missing Package Manager for macOS (or Linux)](https://brew.sh/)
#[derive(Debug, Default, Clone, Copy, PartialEq, Eq, Hash, Structural)]
pub struct Homebrew;

/// The `brew` subcommand that carries out each command.
pub open spec fn brew_subcommand(cmd: Cmd) -> Seq<char> {
    match cmd {
        Cmd::Install => "install"@,
        Cmd::Uninstall => "uninstall"@,
        Cmd::Update => "upgrade"@,
        Cmd::UpdateAll => "upgrade"@,
        Cmd::List => "list"@,
        Cmd::Sync => "update"@,
        Cmd::AddRepo => "tap"@,
        Cmd::Search => "search"@,
        Cmd::Outdated => "outdated"@,
    }
}

impl Homebrew {
    /// The character between a package's name and its version: `name@version`.
    pub fn pkg_delimiter(&self) -> (res: char)
        ensures
            res == '@',
    {
        '@'
    }

    /// The name of the package manager: the lower-case name of `AvailablePackageManager::Brew`.
    pub fn pkg_manager_name(&self) -> (res: String)
        ensures
            res@ == lower_text(manager_name(AvailablePackageManager::Brew)),
    {
        let name = AvailablePackageManager::Brew.display_name();
        ascii_lowercase(name.as_str())
    }

    /// The package formats that Homebrew installs.
    pub fn supported_pkg_formats(&self) -> (res: Vec<PkgFormat>)
        ensures
            res@ == seq![PkgFormat::Bottle],
    {
        let res = vec![PkgFormat::Bottle];
        assert(res@ =~= seq![PkgFormat::Bottle]);
        res
    }

    /// The program that runs Homebrew.
    pub fn program(&self) -> (res: String)
        ensures
            res@ == "brew"@,
    {
        "brew".to_owned()
    }

    /// The arguments that start `cmd`; they do not depend on the package.
    pub fn get_cmds(&self, cmd: Cmd, _pkg: Option<&Package>) -> (res: Vec<String>)
        ensures
            res@.map_values(|s: String| s@) == seq![brew_subcommand(cmd)],
    {
        let sub = match cmd {
            Cmd::Install => "install",
            Cmd::Uninstall => "uninstall",
            Cmd::Update | Cmd::UpdateAll => "upgrade",
            Cmd::List => "list",
            Cmd::Sync => "update",
            Cmd::AddRepo => "tap",
            Cmd::Search => "search",
            Cmd::Outdated => "outdated",
        };
        let res = vec![sub.to_owned()];
        assert(res@.map_values(|s: String| s@) =~= seq![res@[0]@]);
        res
    }

    /// The human-readable name of the package manager.
    pub fn to_string(&self) -> (res: String)
        ensures
            res@ == "Homebrew"@,
    {
        "Homebrew".to_owned()
    }
}

} // verus!
