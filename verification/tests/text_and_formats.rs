use genpack::outcome::CommandOutcome;
use genpack::common::{AvailablePackageManager, Cmd, Operation, PkgFormat};
use genpack::console::{header_line, without_assume_yes};
use genpack::managers::brew::Homebrew;
use genpack::package::{version_from_fragment, Package};
use genpack::text::{ascii_lowercase, split_char, str_eq, str_eq_ignore_ascii_case};

#[test]
fn file_extensions() {
    assert_eq!(PkgFormat::Bottle.file_extention(), "tar.gz");
    assert_eq!(PkgFormat::Exe.file_extention(), "exe");
    assert_eq!(PkgFormat::Msi.file_extention(), "msi");
    assert_eq!(PkgFormat::Rpm.file_extention(), "rpm");
    assert_eq!(PkgFormat::Deb.file_extention(), "deb");
    assert_eq!(PkgFormat::Flatpak.file_extention(), "flatpak");
}

#[test]
fn extensions_are_distinct() {
    let all = [
        PkgFormat::Bottle,
        PkgFormat::Exe,
        PkgFormat::Msi,
        PkgFormat::Rpm,
        PkgFormat::Deb,
        PkgFormat::Flatpak,
    ];
    for a in all.iter() {
        for b in all.iter() {
            assert_eq!(a == b, a.file_extention() == b.file_extention());
        }
    }
}

#[test]
fn manager_names() {
    assert_eq!(AvailablePackageManager::Apt.display_name(), "Apt");
    assert_eq!(AvailablePackageManager::Brew.display_name(), "Brew");
    assert_eq!(AvailablePackageManager::Zypper.display_name(), "Zypper");
    assert_eq!(AvailablePackageManager::from_name("brew"), Some(AvailablePackageManager::Brew));
    assert_eq!(AvailablePackageManager::from_name("FLATPAK"), Some(AvailablePackageManager::Flatpak));
    assert_eq!(AvailablePackageManager::from_name("dNf"), Some(AvailablePackageManager::Dnf));
    assert_eq!(AvailablePackageManager::from_name("homebrew"), None);
    assert_eq!(AvailablePackageManager::from_name(""), None);
}

#[test]
fn manager_name_round_trip() {
    let all = AvailablePackageManager::all();
    assert_eq!(all.len(), AvailablePackageManager::COUNT);
    assert_eq!(all[0], AvailablePackageManager::Apt);
    assert_eq!(all[6], AvailablePackageManager::Zypper);
    for m in all {
        let name = m.display_name();
        assert_eq!(AvailablePackageManager::from_name(&name), Some(m));
        assert_eq!(AvailablePackageManager::from_name(&name.to_lowercase()), Some(m));
        assert_eq!(AvailablePackageManager::from_name(&name.to_uppercase()), Some(m));
    }
}

#[test]
fn homebrew_commands() {
    let hb = Homebrew;
    assert_eq!(hb.get_cmds(Cmd::Install, None), vec!["install"]);
    assert_eq!(hb.get_cmds(Cmd::Uninstall, None), vec!["uninstall"]);
    assert_eq!(hb.get_cmds(Cmd::Update, None), vec!["upgrade"]);
    assert_eq!(hb.get_cmds(Cmd::UpdateAll, None), vec!["upgrade"]);
    assert_eq!(hb.get_cmds(Cmd::List, None), vec!["list"]);
    assert_eq!(hb.get_cmds(Cmd::Sync, None), vec!["update"]);
    assert_eq!(hb.get_cmds(Cmd::AddRepo, None), vec!["tap"]);
    assert_eq!(hb.get_cmds(Cmd::Search, None), vec!["search"]);
    assert_eq!(hb.get_cmds(Cmd::Outdated, None), vec!["outdated"]);
    let p = Package::new("hello", "brew".to_string(), None);
    assert_eq!(hb.get_cmds(Cmd::Install, Some(&p)), vec!["install"]);
}

#[test]
fn homebrew_identity() {
    let hb = Homebrew::default();
    assert_eq!(hb.pkg_delimiter(), '@');
    assert_eq!(hb.pkg_manager_name(), "brew");
    assert_eq!(hb.supported_pkg_formats(), vec![PkgFormat::Bottle]);
    assert_eq!(hb.program(), "brew");
    assert_eq!(hb.to_string(), "Homebrew");
}

#[test]
fn enums_compare() {
    assert_ne!(Cmd::Update, Cmd::UpdateAll);
    assert_eq!(Operation::Install, Operation::Install);
    assert_ne!(Operation::Install, Operation::Uninstall);
}

#[test]
fn fragment_versions() {
    assert_eq!(version_from_fragment("version=1.2"), Some("1.2".to_string()));
    assert_eq!(version_from_fragment("a=1,version=2,version=3"), Some("3".to_string()));
    assert_eq!(version_from_fragment("version=2,a=1"), Some("2".to_string()));
    assert_eq!(version_from_fragment("version"), None);
    assert_eq!(version_from_fragment("version==x"), Some("=x".to_string()));
    assert_eq!(version_from_fragment(""), None);
    assert_eq!(version_from_fragment("versions=1"), None);
}

#[test]
fn header_lines() {
    assert_eq!(header_line(Some(20)), "-[MPM interactive]--");
    assert_eq!(header_line(Some(17)), "[MPM interactive]");
    assert_eq!(header_line(Some(21)), "--[MPM interactive]--");
    assert_eq!(header_line(Some(80)).chars().count(), 80);
    assert_eq!(header_line(None), "-------------------[MPM interactive]----------------");
}

#[test]
fn assume_yes_is_dropped() {
    let args = vec!["install".to_string(), "-y".to_string(), "hello".to_string(), "-y".to_string()];
    assert_eq!(without_assume_yes(&args), vec!["install", "hello"]);
    let none: Vec<String> = vec![];
    assert_eq!(without_assume_yes(&none), none);
    let keep = vec!["-yes".to_string()];
    assert_eq!(without_assume_yes(&keep), keep);
}

#[test]
fn text_helpers() {
    assert_eq!(split_char("a@b@@c", '@'), vec!["a", "b", "", "c"]);
    assert_eq!(split_char("", ','), vec![""]);
    assert_eq!(split_char("ünï@cödé", '@'), vec!["ünï", "cödé"]);
    assert!(str_eq("abc", "abc"));
    assert!(!str_eq("abc", "abd"));
    assert!(!str_eq("abc", "ab"));
    assert_eq!(ascii_lowercase("Brew ÄB"), "brew Äb");
    assert!(str_eq_ignore_ascii_case("ZyPPer", "zypper"));
    assert!(!str_eq_ignore_ascii_case("apt", "apx"));
}

#[test]
fn command_outcome_description() {
    let o = CommandOutcome { code: Some(0), success: true, lines: vec!["a".to_string(), "b".to_string()] };
    assert!(o.success());
    assert_eq!(o.describe(), "<code=Some(0), success=true, lines=2>");
    let n = CommandOutcome { code: None, success: false, lines: vec![] };
    assert_eq!(n.describe(), "<code=None, success=false, lines=0>");
    let neg = CommandOutcome { code: Some(-123), success: false, lines: vec![String::new(); 1234] };
    assert_eq!(neg.describe(), "<code=Some(-123), success=false, lines=1234>");
    let big = CommandOutcome { code: Some(i32::MIN), success: false, lines: vec![] };
    assert_eq!(big.describe(), format!("<code={:?}, success=false, lines=0>", Some(i32::MIN)));
}
