//! The URL value, the two ways in which a text fails to be one, and the
//! parser that tells them apart.

use crate::pattern::{split, split_first};
use vstd::prelude::*;

verus! {

/// The components of a URL as plain texts. This is what contracts speak of.
pub struct UrlView {
    pub scheme: Seq<char>,
    pub host: Seq<char>,
    pub port: Seq<char>,
    pub path: Seq<char>,
    pub search_part: Seq<char>,
}

/// Why a text was not accepted.
#[derive(PartialEq, Eq, Debug, Structural)]
pub enum URLError {
    /// The text yields no host.
    Invalid,
    /// The text yields a host, but its scheme is not plain HTTP.
    Unsupported,
}

/// A parsed HTTP URL. Its host is never empty and its scheme is always
/// `http`; a value never changes once it is made.
#[derive(Debug)]
pub struct URL {
    scheme: String,
    host: String,
    port: String,
    path: String,
    search_part: String,
}

/// The five components that a text falls into, before any of them is judged.
///
/// The scheme ends at the first `://`; the authority ends at the first `/`
/// after that, and its port begins after its first `:`; the path ends at the
/// first `?` after the authority, and the search part at the first `#` after
/// that `?`. What follows that `#` is dropped. A port that is not given is
/// `80`; every other part that is not given is empty.
pub open spec fn components(input: Seq<char>) -> UrlView {
    let (scheme, after_scheme) = split_first(input, "://"@, Seq::empty());
    let (authority, after_authority) = split_first(after_scheme, "/"@, Seq::empty());
    let (host, port) = split_first(authority, ":"@, "80"@);
    let (path, after_path) = split_first(after_authority, "?"@, Seq::empty());
    let (search_part, _fragment) = split_first(after_path, "#"@, Seq::empty());
    UrlView { scheme, host, port, path, search_part }
}

/// What parsing `input` gives. An empty host is judged first, so a text with
/// neither a host nor the right scheme is `Invalid`.
pub open spec fn parse_url(input: Seq<char>) -> Result<UrlView, URLError> {
    let parts = components(input);
    if parts.host.len() == 0 {
        Err(URLError::Invalid)
    } else if parts.scheme != "http"@ {
        Err(URLError::Unsupported)
    } else {
        Ok(parts)
    }
}

/// The view of a result of parsing: the components of the URL, or the error.
pub open spec fn outcome(parsed: Result<URL, URLError>) -> Result<UrlView, URLError> {
    match parsed {
        Ok(url) => Ok(url@),
        Err(e) => Err(e),
    }
}

impl View for URL {
    type V = UrlView;

    closed spec fn view(&self) -> UrlView {
        UrlView {
            scheme: self.scheme@,
            host: self.host@,
            port: self.port@,
            path: self.path@,
            search_part: self.search_part@,
        }
    }
}

impl PartialEq for URL {
    /// Two URLs are equal when their five components are.
    fn eq(&self, other: &Self) -> (same: bool) {
        self.scheme == other.scheme && self.host == other.host && self.port == other.port
            && self.path == other.path && self.search_part == other.search_part
    }
}

impl vstd::std_specs::cmp::PartialEqSpecImpl for URL {
    open spec fn obeys_eq_spec() -> bool {
        true
    }

    open spec fn eq_spec(&self, other: &Self) -> bool {
        self@ == other@
    }
}

impl URL {
    #[verifier::type_invariant]
    spec fn well_formed(&self) -> bool {
        &&& self.host@.len() > 0
        &&& self.scheme@ == "http"@
    }

    /// Parses `url`. The result is `Ok` exactly when the text yields a
    /// non-empty host and the scheme `http`, and then holds the components
    /// of the text.
    pub fn new(url: String) -> (parsed: Result<Self, URLError>)
        ensures
            outcome(parsed) == parse_url(url@),
    {
        let (scheme, other) = split(url, "://", String::new());
        let (host, other) = split(other, "/", String::new());
        let (host, port) = split(host, ":", "80".to_owned());
        let (path, other) = split(other, "?", String::new());
        let (search_part, _fragment) = split(other, "#", String::new());

        if host.as_str().is_empty() {
            return Err(URLError::Invalid);
        }
        if scheme != "http".to_owned() {
            return Err(URLError::Unsupported);
        }
        Ok(Self { scheme, host, port, path, search_part })
    }

    /// The scheme, which is always `http`.
    pub fn scheme(&self) -> (text: &str)
        ensures
            text@ == self@.scheme,
            text@ == "http"@,
    {
        proof {
            use_type_invariant(self);
        }
        self.scheme.as_str()
    }

    /// The host, which is never empty.
    pub fn host(&self) -> (text: &str)
        ensures
            text@ == self@.host,
            text@.len() > 0,
    {
        proof {
            use_type_invariant(self);
        }
        self.host.as_str()
    }

    /// The port as it was written, or `80` where none was.
    pub fn port(&self) -> (text: &str)
        ensures
            text@ == self@.port,
    {
        self.port.as_str()
    }

    /// The path, without the `/` that begins it.
    pub fn path(&self) -> (text: &str)
        ensures
            text@ == self@.path,
    {
        self.path.as_str()
    }

    /// The query string, without the `?` that begins it.
    pub fn search_part(&self) -> (text: &str)
        ensures
            text@ == self@.search_part,
    {
        self.search_part.as_str()
    }
}

} // verus!
