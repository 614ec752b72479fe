//! The parts of a parsed URL that the package logic reads.
use vstd::prelude::*;

verus! {

/// `url::ParseError`, the error of a URL that does not parse.
#[verifier::external_type_specification]
#[verifier::external_body]
pub struct ExUrlParseError(url::ParseError);

/// What a parsed URL holds, as mathematical values.
pub struct UrlView {
    /// The whole URL, normalized.
    pub serialization: Seq<char>,
    /// The scheme, in lower case, without the `:`.
    pub scheme: Seq<char>,
    /// The `/`-separated path segments, or `None` for a cannot-be-a-base URL.
    pub path_segments: Option<Seq<Seq<char>>>,
    /// The text after `#`, if there is one.
    pub fragment: Option<Seq<char>>,
    /// The URL's `Debug` form, which lists its components.
    pub debug: Seq<char>,
}

/// The facts about every URL that `url::Url::parse` accepts that this library relies on:
/// the serialization starts with the scheme and a colon, a `file` URL starts with
/// `file://`, and a URL with a path has at least one (possibly empty) segment.
pub open spec fn url_view_well_formed(u: UrlView) -> bool {
    &&& u.serialization.len() > u.scheme.len()
    &&& u.serialization.take(u.scheme.len() as int) == u.scheme
    &&& u.serialization[u.scheme.len() as int] == ':'
    &&& (u.scheme == "file"@ ==> "file://"@.is_prefix_of(u.serialization))
    &&& (u.path_segments matches Some(segs) ==> segs.len() >= 1)
}

/// A URL that has been parsed, held as the plain values that the package logic reads.
#[derive(Debug, PartialEq, Eq, Hash)]
pub struct PkgUrl {
    serialization: String,
    scheme: String,
    path_segments: Option<Vec<String>>,
    fragment: Option<String>,
    debug: String,
}

/// The views of a sequence of strings.
pub open spec fn views_of(v: Seq<String>) -> Seq<Seq<char>> {
    v.map_values(|s: String| s@)
}

impl View for PkgUrl {
    type V = UrlView;

    closed spec fn view(&self) -> UrlView {
        UrlView {
            serialization: self.serialization@,
            scheme: self.scheme@,
            path_segments: match self.path_segments {
                Some(v) => Some(views_of(v@)),
                None => None,
            },
            fragment: match self.fragment {
                Some(f) => Some(f@),
                None => None,
            },
            debug: self.debug@,
        }
    }
}

fn clone_strings(v: &Vec<String>) -> (res: Vec<String>)
    ensures
        res@ == v@,
{
    let mut res: Vec<String> = Vec::new();
    let mut i: usize = 0;
    while i < v.len()
        invariant
            i <= v.len(),
            res@ == v@.take(i as int),
        decreases v.len() - i,
    {
        res.push(v[i].clone());
        assert(res@ =~= v@.take(i + 1));
        i = i + 1;
    }
    assert(v@.take(v.len() as int) =~= v@);
    res
}

impl Clone for PkgUrl {
    fn clone(&self) -> (res: Self)
        ensures
            res@ == self@,
    {
        proof {
            use_type_invariant(self);
        }
        PkgUrl {
            serialization: self.serialization.clone(),
            scheme: self.scheme.clone(),
            path_segments: match &self.path_segments {
                Some(v) => Some(clone_strings(v)),
                None => None,
            },
            fragment: match &self.fragment {
                Some(f) => Some(f.clone()),
                None => None,
            },
            debug: self.debug.clone(),
        }
    }
}

/// What `url::Url::parse` makes of a text: `None` when it refuses it.
pub uninterp spec fn url_parse_result(input: Seq<char>) -> Option<UrlView>;

/// `url::Url::parse` on `input`, with the parsed URL taken apart into its serialization,
/// scheme, path segments, fragment and `Debug` form. The contract claims that the result
/// is a function of the input alone (named `url_parse_result`), the facts of
/// `url_view_well_formed`, and two facts of the parser (`parse_url`, `parse_scheme`):
/// a text without base parses only when it has a scheme, so only when it holds a `:`;
/// and a text that starts with `file:` has the scheme `file`.
#[verifier::external_body]
fn url_parse(input: &str) -> (res: Result<PkgUrl, url::ParseError>)
    ensures
        res is Ok <==> url_parse_result(input@) is Some,
        res matches Ok(u) ==> url_parse_result(input@) == Some(u@) && url_view_well_formed(u@),
        res is Ok ==> input@.contains(':'),
        res matches Ok(u) ==> ("file:"@.is_prefix_of(input@) ==> u@.scheme == "file"@),
{
    url::Url::parse(input).map(|u| PkgUrl {
        serialization: u.as_str().to_string(),
        scheme: u.scheme().to_string(),
        path_segments: u.path_segments().map(|segs| segs.map(|x| x.to_string()).collect()),
        fragment: u.fragment().map(|f| f.to_string()),
        debug: format!("{:?}", u),
    })
}

/// The view of an optional parsed URL.
pub open spec fn opt_url_view(u: Option<PkgUrl>) -> Option<UrlView> {
    match u {
        Some(u) => Some(u@),
        None => None,
    }
}

impl PkgUrl {
    /// Every parsed URL has the properties of `url_view_well_formed`.
    #[verifier::type_invariant]
    pub open spec fn well_formed(self) -> bool {
        url_view_well_formed(self@)
    }

    /// Parses an absolute URL; `None` when `url::Url::parse` refuses the text.
    pub fn parse(input: &str) -> (res: Option<PkgUrl>)
        ensures
            opt_url_view(res) == url_parse_result(input@),
            res matches Some(u) ==> url_view_well_formed(u@),
            res is Some ==> input@.contains(':'),
            res matches Some(u) ==> ("file:"@.is_prefix_of(input@) ==> u@.scheme == "file"@),
    {
        match url_parse(input) {
            Ok(u) => Some(u),
            Err(_) => None,
        }
    }

    /// The whole URL, as `Url::as_str` gives it.
    pub fn as_str(&self) -> (res: &str)
        ensures
            res@ == self@.serialization,
    {
        self.serialization.as_str()
    }

    /// The scheme, as `Url::scheme` gives it.
    pub fn scheme(&self) -> (res: &str)
        ensures
            res@ == self@.scheme,
    {
        self.scheme.as_str()
    }

    /// The URL's `Debug` form.
    pub fn debug_text(&self) -> (res: &str)
        ensures
            res@ == self@.debug,
    {
        self.debug.as_str()
    }

    /// The fragment, as `Url::fragment` gives it.
    pub fn fragment(&self) -> (res: Option<&str>)
        ensures
            match res {
                Some(f) => self@.fragment == Some(f@),
                None => self@.fragment is None,
            },
    {
        match &self.fragment {
            Some(f) => Some(f.as_str()),
            None => None,
        }
    }

    /// The last path segment, or `None` for a URL without a path.
    pub fn last_path_segment(&self) -> (res: Option<&str>)
        ensures
            match res {
                Some(seg) => self@.path_segments matches Some(segs) && seg@ == segs.last(),
                None => self@.path_segments is None,
            },
    {
        proof {
            use_type_invariant(self);
        }
        match &self.path_segments {
            Some(segs) => {
                let n = segs.len();
                assert(views_of(segs@)[n - 1] == segs@[n - 1]@);
                Some(segs[n - 1].as_str())
            },
            None => None,
        }
    }
}

} // verus!
