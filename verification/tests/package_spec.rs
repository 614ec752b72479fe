use std::str::FromStr;

use genpack::package::{Package, PackageError};
use genpack::location::PkgUrl;

#[test]
fn new_holds_its_fields() {
    let p = Package::new("hello", "brew".to_string(), Some("2.10"));
    assert_eq!(p.name(), "hello");
    assert_eq!(p.package_manager(), "brew");
    assert_eq!(p.version(), Some("2.10"));
    assert!(p.url().is_none());
    let q = Package::new("hello", String::new(), None);
    assert_eq!(q.version(), None);
    assert_eq!(q.package_manager(), "");
}

#[test]
fn cli_display_joins_name_and_version() {
    let p = Package::new("hello", "brew".to_string(), Some("2.10"));
    assert_eq!(p.cli_display('@'), "hello@2.10");
    assert_eq!(p.cli_display('='), "hello=2.10");
    let q = Package::new("hello", "apt".to_string(), None);
    assert_eq!(q.cli_display('='), "hello");
}

#[test]
fn to_string_lists_the_fields() {
    let p = Package::new("hello", "brew".to_string(), Some("2.10"));
    assert_eq!(p.to_string(), "hello - brew - 2.10");
    let q = Package::new("hello", "apt".to_string(), None);
    assert_eq!(q.to_string(), "hello - apt");
}

#[test]
fn table_row_and_headers() {
    let p = Package::new("hello", "brew".to_string(), Some("2.10"));
    assert_eq!(p.table_row(), vec!["hello", "brew", "2.10"]);
    let q = Package::new("hello", "apt".to_string(), None);
    assert_eq!(q.table_row(), vec!["hello", "apt", "~"]);
    assert_eq!(Package::table_headers(), vec!["name", "package manager", "version"]);
}

#[test]
fn parse_manager_name_version() {
    let p = Package::parse("brew@hello@2.10").unwrap();
    assert_eq!(p.package_manager(), "brew");
    assert_eq!(p.name(), "hello");
    assert_eq!(p.version(), Some("2.10"));
    assert!(p.url().is_none());
    assert_eq!(p, Package::new("hello", "brew".to_string(), Some("2.10")));
}

#[test]
fn parse_manager_and_name() {
    let p = Package::parse("apt@hello").unwrap();
    assert_eq!(p, Package::new("hello", "apt".to_string(), None));
    let q = Package::parse("@hello").unwrap();
    assert_eq!(q, Package::new("hello", String::new(), None));
}

#[test]
fn parse_bare_name() {
    let p = Package::parse("hello").unwrap();
    assert_eq!(p, Package::new("hello", String::new(), None));
    assert_eq!(p.cli_display('@'), "hello");
    let e = Package::parse("").unwrap();
    assert_eq!(e.name(), "");
}

#[test]
fn parse_too_many_at_signs_is_invalid() {
    assert_eq!(Package::parse("a@b@c@d"), Err(PackageError::InvalidFormat));
    assert_eq!(Package::parse("@@@"), Err(PackageError::InvalidFormat));
}

#[test]
fn parse_empty_parts() {
    let p = Package::parse("@@").unwrap();
    assert_eq!(p, Package::new("", String::new(), Some("")));
}

#[test]
fn from_str_matches_parse() {
    let p: Package = "brew@hello@2.10".parse().unwrap();
    assert_eq!(p, Package::parse("brew@hello@2.10").unwrap());
    assert_eq!(Package::from_str("x@y@z@w"), Err(PackageError::InvalidFormat));
}

#[test]
fn parse_url_takes_name_and_version() {
    let p = Package::parse("https://example.com/pkgs/hello_2.10.deb#version=2.10").unwrap();
    assert_eq!(p.name(), "hello_2.10.deb");
    assert_eq!(p.package_manager(), "");
    assert_eq!(p.version(), Some("2.10"));
    let u = p.url().unwrap();
    assert_eq!(u.as_str(), "https://example.com/pkgs/hello_2.10.deb#version=2.10");
    assert_eq!(u.scheme(), "https");
    assert_eq!(u.fragment(), Some("version=2.10"));
    assert_eq!(u.last_path_segment(), Some("hello_2.10.deb"));
}

#[test]
fn parse_url_last_version_entry_wins() {
    let p = Package::parse("https://example.com/a.rpm#arch=x86,version=1,version=2").unwrap();
    assert_eq!(p.version(), Some("2"));
    let q = Package::parse("https://example.com/a.rpm#arch=x86").unwrap();
    assert_eq!(q.version(), None);
    let r = Package::parse("https://example.com/a.rpm").unwrap();
    assert_eq!(r.version(), None);
    assert_eq!(r.name(), "a.rpm");
}

#[test]
fn parse_url_without_path_is_refused() {
    assert_eq!(Package::parse("mailto:someone@example.com"), Err(PackageError::NoPathInUrl));
}

#[test]
fn parse_url_with_empty_last_segment() {
    let p = Package::parse("https://example.com/").unwrap();
    assert_eq!(p.name(), "");
}

#[test]
fn cli_display_of_urls() {
    let local = Package::parse("file:///tmp/hello.deb").unwrap();
    assert_eq!(local.cli_display('@'), "/tmp/hello.deb");
    assert_eq!(local.name(), "hello.deb");
    let remote = Package::parse("https://example.com/hello.deb#version=1").unwrap();
    assert_eq!(remote.cli_display('@'), "https://example.com/hello.deb#version=1");
}

#[test]
fn from_parsed_url_uses_the_given_url() {
    let url = PkgUrl::parse("https://example.com/x/y.deb#version=3");
    assert!(url.is_some());
    let p = Package::from_parsed_url("ignored@text", url).unwrap();
    assert_eq!(p.name(), "y.deb");
    assert_eq!(p.version(), Some("3"));
    let q = Package::from_parsed_url("brew@hello", None).unwrap();
    assert_eq!(q, Package::new("hello", "brew".to_string(), None));
}

#[test]
fn from_local_path_is_a_file_url() {
    let p = Package::from_local_path("/tmp/pkg.rpm").unwrap();
    assert_eq!(p.url().unwrap().as_str(), "file:///tmp/pkg.rpm");
    assert_eq!(p.name(), "pkg.rpm");
    assert_eq!(p.cli_display('@'), "/tmp/pkg.rpm");
}

#[test]
fn remote_url_and_file_name() {
    let plain = Package::new("hello", "apt".to_string(), None);
    assert_eq!(plain.remote_url().err(), Some(PackageError::NoUrl));
    assert_eq!(plain.remote_file_name(), Err(PackageError::NoUrl));
    let local = Package::parse("file:///tmp/hello.deb").unwrap();
    let debug = format!("{:?}", url::Url::parse("file:///tmp/hello.deb").unwrap());
    assert_eq!(local.remote_url().err(), Some(PackageError::AlreadyLocal(debug.clone())));
    assert_eq!(local.remote_file_name(), Err(PackageError::AlreadyLocal(debug.clone())));
    assert_eq!(
        local.remote_file_name().unwrap_err().message(),
        format!("Package already points to local file {:?}", url::Url::parse("file:///tmp/hello.deb").unwrap())
    );
    let remote = Package::parse("https://example.com/dl/hello.deb").unwrap();
    assert_eq!(remote.remote_url().unwrap().as_str(), "https://example.com/dl/hello.deb");
    assert_eq!(remote.remote_file_name(), Ok("hello.deb".to_string()));
}

#[test]
fn set_local_file_points_at_the_file() {
    let mut p = Package::parse("https://example.com/dl/hello.deb#version=1").unwrap();
    p.set_local_file("/tmp/hello.deb");
    assert_eq!(p.url().unwrap().as_str(), "file:///tmp/hello.deb");
    assert!(p.remote_url().is_err());
    assert!(matches!(p.remote_file_name(), Err(PackageError::AlreadyLocal(_))));
    assert_eq!(p.cli_display('@'), "/tmp/hello.deb");
    assert_eq!(p.name(), "hello.deb");
    assert_eq!(p.version(), Some("1"));
}

#[test]
fn set_url_replaces_the_url() {
    let mut p = Package::new("hello", "apt".to_string(), None);
    p.set_url(PkgUrl::parse("https://example.com/a.deb"));
    assert_eq!(p.cli_display('='), "https://example.com/a.deb");
    p.set_url(None);
    assert_eq!(p.cli_display('='), "hello");
}

#[test]
fn clone_is_equal() {
    let p = Package::parse("https://example.com/a.deb#version=1").unwrap();
    assert_eq!(p.clone(), p);
}

#[test]
fn error_messages() {
    assert_eq!(PackageError::InvalidFormat.message(), "Invalid package format");
    assert_eq!(PackageError::NoPathInUrl.message(), "can not determine pane from the url");
    assert_eq!(PackageError::NoUrl.message(), "There is no URL associated with this package");
    assert_eq!(
        PackageError::AlreadyLocal("U".to_string()).message(),
        "Package already points to local file U"
    );
    assert_eq!(PackageError::MissingPathInUrl.message(), "missing path in url");
}

#[test]
fn url_parse_refuses_relative_text() {
    assert!(PkgUrl::parse("hello").is_none());
    assert!(PkgUrl::parse("brew@hello@1.0").is_none());
    let u = PkgUrl::parse("HTTPS://Example.com/A").unwrap();
    assert_eq!(u.scheme(), "https");
    assert_eq!(u.as_str(), "https://example.com/A");
    assert_eq!(u.fragment(), None);
}

#[test]
fn plain_spec_round_trip() {
    for spec in ["brew@hello@2.10", "apt@hello", "hello", "@x@", "a@@"] {
        let p = Package::parse(spec).unwrap();
        let rebuilt = match (p.version(), p.package_manager()) {
            (Some(v), pm) => format!("{}@{}@{}", pm, p.name(), v),
            (None, "") if !spec.contains('@') => p.name().to_string(),
            (None, pm) => format!("{}@{}", pm, p.name()),
        };
        assert_eq!(rebuilt, spec);
        assert!(!p.name().contains('@') && !p.package_manager().contains('@'));
    }
}

#[test]
fn cli_round_trip() {
    for (m, n, v) in [("brew", "hello", Some("2.10")), ("apt", "vim", None), ("", "x", Some(""))] {
        let q = Package::new(n, m.to_string(), v);
        let text = format!("{}@{}", m, q.cli_display('@'));
        assert_eq!(Package::from_str(&text), Ok(q));
    }
}

#[test]
fn url_debug_text() {
    let u = PkgUrl::parse("https://example.com/a.deb").unwrap();
    assert_eq!(u.debug_text(), format!("{:?}", url::Url::parse("https://example.com/a.deb").unwrap()));
}
