//! A package: its name, the package manager it belongs to, an optional version and an
//! optional URL; how it is parsed from a specification and rendered for command lines.
use vstd::prelude::*;
use vstd::string::*;

use crate::location::{opt_url_view, url_parse_result, url_view_well_formed, PkgUrl, UrlView};
use crate::text::{
    lemma_split_first_piece, lemma_split_nonempty, push_char, split_char, split_on, str_eq,
};

verus! {

/// Why a package specification or a download request was refused.
#[derive(Debug, Clone, PartialEq, Eq, Hash)]
pub enum PackageError {
    /// The specification is a URL that has no path to take a package name from.
    NoPathInUrl,
    /// The specification holds more than two `@`.
    InvalidFormat,
    /// The package has no URL to download from.
    NoUrl,
    /// The package URL already points to a local file; holds the URL's `Debug` form.
    AlreadyLocal(String),
    /// The package URL has no path to take a file name from.
    MissingPathInUrl,
}

impl PackageError {
    /// A description of the error.
    pub fn message(&self) -> (res: String)
        ensures
            res@ == error_message(*self),
    {
        match self {
            PackageError::NoPathInUrl => "can not determine pane from the url".to_owned(),
            PackageError::InvalidFormat => "Invalid package format".to_owned(),
            PackageError::NoUrl => "There is no URL associated with this package".to_owned(),
            PackageError::AlreadyLocal(url) => {
                let mut res = String::from_str("Package already points to local file ");
                res.append(url.as_str());
                res
            },
            PackageError::MissingPathInUrl => "missing path in url".to_owned(),
        }
    }
}

/// The description of each error.
pub open spec fn error_message(e: PackageError) -> Seq<char> {
    match e {
        PackageError::NoPathInUrl => "can not determine pane from the url"@,
        PackageError::InvalidFormat => "Invalid package format"@,
        PackageError::NoUrl => "There is no URL associated with this package"@,
        PackageError::AlreadyLocal(url) => "Package already points to local file "@ + url@,
        PackageError::MissingPathInUrl => "missing path in url"@,
    }
}

/// What a package holds, as mathematical values.
pub struct PackageView {
    pub name: Seq<char>,
    pub package_manager: Seq<char>,
    pub version: Option<Seq<char>>,
    pub url: Option<UrlView>,
}

/// A representation of a package.
///
/// It holds the package's name, the name of its package manager, an optional version
/// and an optional URL (a local package can be given as a `file://` URI).
#[derive(Debug, PartialEq, Eq, Hash)]
pub struct Package {
    name: String,
    package_manager: String,
    version: Option<String>,
    url: Option<PkgUrl>,
}

/// The view of an optional string.
pub open spec fn opt_str_view(s: Option<String>) -> Option<Seq<char>> {
    match s {
        Some(s) => Some(s@),
        None => None,
    }
}

impl View for Package {
    type V = PackageView;

    closed spec fn view(&self) -> PackageView {
        PackageView {
            name: self.name@,
            package_manager: self.package_manager@,
            version: opt_str_view(self.version),
            url: opt_url_view(self.url),
        }
    }
}

/// The value given to `key` by one `key=value` entry of a URL fragment, where the key
/// ends at the first `=`; `None` when the entry has no `=` or another key.
pub open spec fn entry_value(entry: Seq<char>, key: Seq<char>) -> Option<Seq<char>> {
    let parts = split_on(entry, '=');
    if parts.len() > 1 && parts[0] == key {
        Some(entry.skip(parts[0].len() + 1int))
    } else {
        None
    }
}

/// The value that the last of `entries` to name `key` gives it.
pub open spec fn last_entry_value(entries: Seq<Seq<char>>, key: Seq<char>) -> Option<Seq<char>>
    decreases entries.len(),
{
    if entries.len() == 0 {
        None
    } else {
        match entry_value(entries.last(), key) {
            Some(v) => Some(v),
            None => last_entry_value(entries.drop_last(), key),
        }
    }
}

/// The version that a URL fragment of comma-separated `key=value` entries names:
/// the value of the last `version` entry.
pub open spec fn fragment_version(fragment: Seq<char>) -> Option<Seq<char>> {
    last_entry_value(split_on(fragment, ','), "version"@)
}

/// A package view with the given fields and no URL.
pub open spec fn plain_package(
    name: Seq<char>,
    package_manager: Seq<char>,
    version: Option<Seq<char>>,
) -> PackageView {
    PackageView { name, package_manager, version, url: None }
}

/// What a package specification `s` denotes, given what the URL parser made of it.
///
/// A specification that parses as a URL names the package by the last path segment;
/// its version comes from the fragment and it has no package manager.
/// Otherwise the specification is `manager@name@version`, `manager@name` or `name`.
pub open spec fn package_from_spec(s: Seq<char>, url: Option<UrlView>) -> Result<
    PackageView,
    PackageError,
> {
    match url {
        Some(u) => match u.path_segments {
            Some(segs) => Ok(
                PackageView {
                    name: segs.last(),
                    package_manager: Seq::<char>::empty(),
                    version: fragment_version(
                        match u.fragment {
                            Some(f) => f,
                            None => Seq::<char>::empty(),
                        },
                    ),
                    url: Some(u),
                },
            ),
            None => Err(PackageError::NoPathInUrl),
        },
        None => {
            let parts = split_on(s, '@');
            if parts.len() == 3 {
                Ok(plain_package(parts[1], parts[0], Some(parts[2])))
            } else if parts.len() == 2 {
                Ok(plain_package(parts[1], parts[0], None))
            } else if parts.len() == 1 {
                Ok(plain_package(parts[0], Seq::<char>::empty(), None))
            } else {
                Err(PackageError::InvalidFormat)
            }
        },
    }
}

/// Whether the package can be downloaded: it has a URL, and not a `file` one.
pub open spec fn downloadable(p: PackageView) -> bool {
    p.url matches Some(u) && u.scheme != "file"@
}

/// The view of a parse result.
pub open spec fn package_result_view(r: Result<Package, PackageError>) -> Result<
    PackageView,
    PackageError,
> {
    match r {
        Ok(p) => Ok(p@),
        Err(e) => Err(e),
    }
}

/// How a package is written on a package manager's command line: the path of a local
/// file, the URL of a remote one, else the name, followed by the delimiter and the
/// version when there is one.
pub open spec fn cli_text(p: PackageView, delimiter: char) -> Seq<char> {
    match p.url {
        Some(u) => if u.scheme == "file"@ {
            u.serialization.skip(7)
        } else {
            u.serialization
        },
        None => match p.version {
            Some(v) => p.name + seq![delimiter] + v,
            None => p.name,
        },
    }
}

/// The human-readable form of a package: `name - manager - version`, or
/// `name - manager` without a version.
pub open spec fn display_text(p: PackageView) -> Seq<char> {
    match p.version {
        Some(v) => p.name + " - "@ + p.package_manager + " - "@ + v,
        None => p.name + " - "@ + p.package_manager,
    }
}

/// The version of a fragment of comma-separated `key=value` entries, as
/// `package_from_spec` reads it.
pub fn version_from_fragment(fragment: &str) -> (res: Option<String>)
    ensures
        opt_str_view(res) == fragment_version(fragment@),
{
    let entries = split_char(fragment, ',');
    let ghost views = entries@.map_values(|p: String| p@);
    let mut found: Option<String> = None;
    let mut i: usize = 0;
    assert(views.take(0) =~= Seq::<Seq<char>>::empty());
    while i < entries.len()
        invariant
            views == entries@.map_values(|p: String| p@),
            views == split_on(fragment@, ','),
            i <= entries.len(),
            opt_str_view(found) == last_entry_value(views.take(i as int), "version"@),
        decreases entries.len() - i,
    {
        let entry = entries[i].as_str();
        assert(entry@ == views[i as int]);
        let parts = split_char(entry, '=');
        let ghost pviews = parts@.map_values(|p: String| p@);
        assert(pviews == split_on(entry@, '='));
        if parts.len() > 1 && str_eq(parts[0].as_str(), "version") {
            assert(pviews[0] == parts@[0]@);
            proof {
                lemma_split_first_piece(entry@, '=');
            }
            let n = entry.unicode_len();
            let start = parts[0].unicode_len() + 1;
            found = Some(entry.substring_char(start, n).to_owned());
            assert(entry@.subrange(start as int, n as int) =~= entry@.skip(start as int));
            assert(entry_value(entry@, "version"@) == Some(entry@.skip(start as int)));
        } else {
            assert(parts.len() > 1 ==> pviews[0] == parts@[0]@);
            assert(entry_value(entry@, "version"@) is None);
        }
        assert(views.take(i + 1).drop_last() =~= views.take(i as int));
        assert(views.take(i + 1).last() == views[i as int]);
        i = i + 1;
    }
    assert(views.take(entries.len() as int) =~= views);
    found
}

impl Clone for Package {
    fn clone(&self) -> (res: Self)
        ensures
            res@ == self@,
    {
        Package {
            name: self.name.clone(),
            package_manager: self.package_manager.clone(),
            version: match &self.version {
                Some(v) => Some(v.clone()),
                None => None,
            },
            url: match &self.url {
                Some(u) => Some(u.clone()),
                None => None,
            },
        }
    }
}

impl Package {
    /// Create new Package with name and version.
    pub fn new(name: &str, pm: String, version: Option<&str>) -> (res: Package)
        ensures
            res@ == plain_package(
                name@,
                pm@,
                match version {
                    Some(v) => Some(v@),
                    None => None,
                },
            ),
    {
        let v = match version {
            Some(v) => Some(v.to_owned()),
            None => None,
        };
        Package { name: name.to_owned(), package_manager: pm, version: v, url: None }
    }

    /// Name of the package.
    pub fn name(&self) -> (res: &str)
        ensures
            res@ == self@.name,
    {
        self.name.as_str()
    }

    /// Name of the package manager.
    pub fn package_manager(&self) -> (res: &str)
        ensures
            res@ == self@.package_manager,
    {
        self.package_manager.as_str()
    }

    /// Version information, if present.
    pub fn version(&self) -> (res: Option<&str>)
        ensures
            match res {
                Some(v) => self@.version == Some(v@),
                None => self@.version is None,
            },
    {
        match &self.version {
            Some(v) => Some(v.as_str()),
            None => None,
        }
    }

    /// URL information, if present.
    pub fn url(&self) -> (res: Option<&PkgUrl>)
        ensures
            match res {
                Some(u) => self@.url == Some(u@) && url_view_well_formed(u@),
                None => self@.url is None,
            },
    {
        match &self.url {
            Some(u) => {
                proof {
                    use_type_invariant(u);
                }
                Some(u)
            },
            None => None,
        }
    }

    /// Parses a package specification: a URL (the package is named by its last path
    /// segment and versioned by a `version=` entry of its fragment), or one of
    /// `manager@name@version`, `manager@name` and `name`.
    pub fn parse(s: &str) -> (res: Result<Package, PackageError>)
        ensures
            package_result_view(res) == package_from_spec(s@, url_parse_result(s@)),
            !s@.contains(':') ==> package_result_view(res) == package_from_spec(s@, None),
    {
        let url = PkgUrl::parse(s);
        Package::from_parsed_url(s, url)
    }

    /// The package that the specification `s` denotes, given what the URL parser made
    /// of `s`.
    pub fn from_parsed_url(s: &str, url: Option<PkgUrl>) -> (res: Result<Package, PackageError>)
        ensures
            package_result_view(res) == package_from_spec(s@, opt_url_view(url)),
    {
        match url {
            Some(u) => {
                let name = match u.last_path_segment() {
                    Some(seg) => seg.to_owned(),
                    None => {
                        return Err(PackageError::NoPathInUrl);
                    },
                };
                let fragment = match u.fragment() {
                    Some(f) => f,
                    None => "",
                };
                proof {
                    reveal_strlit("");
                    assert(fragment@ == (match u@.fragment {
                        Some(f) => f,
                        None => Seq::<char>::empty(),
                    }));
                }
                let version = version_from_fragment(fragment);
                Ok(Package { name, package_manager: String::new(), version, url: Some(u) })
            },
            None => {
                let parts = split_char(s, '@');
                let ghost views = parts@.map_values(|p: String| p@);
                proof {
                    lemma_split_nonempty(s@, '@');
                }
                if parts.len() == 3 {
                    assert(views[0] == parts@[0]@ && views[1] == parts@[1]@ && views[2]
                        == parts@[2]@);
                    Ok(Package::new(parts[1].as_str(), parts[0].clone(), Some(parts[2].as_str())))
                } else if parts.len() == 2 {
                    assert(views[0] == parts@[0]@ && views[1] == parts@[1]@);
                    Ok(Package::new(parts[1].as_str(), parts[0].clone(), None))
                } else if parts.len() == 1 {
                    assert(views[0] == parts@[0]@);
                    Ok(Package::new(parts[0].as_str(), String::new(), None))
                } else {
                    Err(PackageError::InvalidFormat)
                }
            },
        }
    }

    /// The package of a local file: the specification `file://` followed by `path`.
    pub fn from_local_path(path: &str) -> (res: Result<Package, PackageError>)
        ensures
            package_result_view(res) == package_from_spec(
                "file://"@ + path@,
                url_parse_result("file://"@ + path@),
            ),
    {
        let mut spec = String::from_str("file://");
        spec.append(path);
        Package::parse(spec.as_str())
    }

    /// Package name for the command line of a package manager that separates name and
    /// version by `pkg_delimiter`.
    pub fn cli_display(&self, pkg_delimiter: char) -> (res: String)
        ensures
            res@ == cli_text(self@, pkg_delimiter),
    {
        match &self.url {
            Some(u) => {
                proof {
                    use_type_invariant(u);
                }
                let text = u.as_str();
                if str_eq(u.scheme(), "file") {
                    proof {
                        reveal_strlit("file://");
                    }
                    let n = text.unicode_len();
                    assert(text@.take(7).len() == 7);
                    let local = text.substring_char(7, n).to_owned();
                    assert(local@ =~= text@.skip(7));
                    local
                } else {
                    text.to_owned()
                }
            },
            None => match &self.version {
                Some(v) => {
                    let mut res = self.name.clone();
                    push_char(&mut res, pkg_delimiter);
                    res.append(v.as_str());
                    res
                },
                None => self.name.clone(),
            },
        }
    }

    /// The human-readable form of the package.
    pub fn to_string(&self) -> (res: String)
        ensures
            res@ == display_text(self@),
    {
        let mut res = self.name.clone();
        res.append(" - ");
        res.append(self.package_manager.as_str());
        match &self.version {
            Some(v) => {
                res.append(" - ");
                res.append(v.as_str());
            },
            None => {},
        }
        res
    }

    /// The cells of the package's row in a table: name, package manager, and the
    /// version or `~`.
    pub fn table_row(&self) -> (res: Vec<String>)
        ensures
            res@.map_values(|c: String| c@) == seq![
                self@.name,
                self@.package_manager,
                match self@.version {
                    Some(v) => v,
                    None => "~"@,
                },
            ],
    {
        let version = match &self.version {
            Some(v) => v.clone(),
            None => "~".to_owned(),
        };
        let res = vec![self.name.clone(), self.package_manager.clone(), version];
        assert(res@.map_values(|c: String| c@) =~= seq![res@[0]@, res@[1]@, res@[2]@]);
        res
    }

    /// The headers of the columns of `table_row`.
    pub fn table_headers() -> (res: Vec<String>)
        ensures
            res@.map_values(|c: String| c@) == seq!["name"@, "package manager"@, "version"@],
    {
        let res = vec!["name".to_owned(), "package manager".to_owned(), "version".to_owned()];
        assert(res@.map_values(|c: String| c@) =~= seq![res@[0]@, res@[1]@, res@[2]@]);
        res
    }

    /// The remote URL to download the package from: refused when the package has no URL
    /// or already points to a local file.
    pub fn remote_url(&self) -> (res: Result<&PkgUrl, PackageError>)
        ensures
            res is Ok <==> downloadable(self@),
            match self@.url {
                None => res == Err::<&PkgUrl, PackageError>(PackageError::NoUrl),
                Some(u) => if u.scheme == "file"@ {
                    res matches Err(PackageError::AlreadyLocal(d)) && d@ == u.debug
                } else {
                    res matches Ok(r) && r@ == u && url_view_well_formed(u)
                },
            },
    {
        match &self.url {
            None => Err(PackageError::NoUrl),
            Some(u) => if str_eq(u.scheme(), "file") {
                Err(PackageError::AlreadyLocal(u.debug_text().to_owned()))
            } else {
                proof {
                    use_type_invariant(u);
                }
                Ok(u)
            },
        }
    }

    /// The name of the file to download the package into when no path is given: the
    /// last path segment of its remote URL.
    pub fn remote_file_name(&self) -> (res: Result<String, PackageError>)
        ensures
            match self@.url {
                None => res == Err::<String, PackageError>(PackageError::NoUrl),
                Some(u) => if u.scheme == "file"@ {
                    res matches Err(PackageError::AlreadyLocal(d)) && d@ == u.debug
                } else {
                    match u.path_segments {
                        None => res == Err::<String, PackageError>(PackageError::MissingPathInUrl),
                        Some(segs) => res matches Ok(name) && name@ == segs.last(),
                    }
                },
            },
    {
        let u = match self.remote_url() {
            Ok(u) => u,
            Err(e) => {
                return Err(e);
            },
        };
        match u.last_path_segment() {
            Some(seg) => Ok(seg.to_owned()),
            None => Err(PackageError::MissingPathInUrl),
        }
    }

    /// Replaces the package's URL.
    pub fn set_url(&mut self, url: Option<PkgUrl>)
        ensures
            final(self)@ == (PackageView { url: opt_url_view(url), ..old(self)@ }),
    {
        self.url = url;
    }

    /// Points the package at the local file `path` once it has been downloaded there:
    /// the URL becomes what the URL parser makes of `file://` followed by `path`, or
    /// none when the parser refuses it. Either way the package is no longer downloadable.
    pub fn set_local_file(&mut self, path: &str)
        ensures
            final(self)@ == (PackageView { url: url_parse_result("file://"@ + path@), ..old(self)@ }),
            final(self)@.url matches Some(u) ==> u.scheme == "file"@,
            !downloadable(final(self)@),
    {
        proof {
            reveal_strlit("file:");
            reveal_strlit("file://");
        }
        let mut spec = String::from_str("file://");
        spec.append(path);
        assert("file:"@.is_prefix_of(spec@)) by {
            assert(spec@.subrange(0, 5) =~= "file:"@);
        }
        let url = PkgUrl::parse(spec.as_str());
        self.url = url;
    }
}

impl std::str::FromStr for Package {
    type Err = PackageError;

    fn from_str(s: &str) -> (res: Result<Package, PackageError>)
        ensures
            package_result_view(res) == package_from_spec(s@, url_parse_result(s@)),
            !s@.contains(':') ==> package_result_view(res) == package_from_spec(s@, None),
    {
        Package::parse(s)
    }
}


} // verus!
