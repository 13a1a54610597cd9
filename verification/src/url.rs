//! Turning what the user typed (or passed on the command line) into the URL
//! to load: URLs with a scheme as they are, existing files as `file:` URLs,
//! anything else as an `https://` address, and `about:blank` when nothing
//! was given.

use vstd::prelude::*;

use crate::text::{chars_of, concat};

verus! {

/// `url::ParseError`, carried through opaquely.
#[verifier::external_type_specification]
#[verifier::external_body]
pub struct ExParseError(url::ParseError);

/// What `url::Url::parse` makes of a string: the serialisation of the
/// parsed URL, or `None` where it reports an error.
pub uninterp spec fn url_parse_of(s: Seq<char>) -> Option<Seq<char>>;

/// What `url::Url::from_file_path` makes of a path: the serialisation of
/// the `file:` URL, or `None` where it refuses the path.
pub uninterp spec fn file_url_of(p: Seq<char>) -> Option<Seq<char>>;

/// `url::Url::parse`, the URL given back by its serialisation
/// (`String::from(url)`). Success and the serialisation are those the name
/// `url_parse_of` gives for the input; which `ParseError` variant comes
/// back on failure is left unsaid.
#[verifier::external_body]
fn parse_url(s: &str) -> (r: Result<String, url::ParseError>)
    ensures
        r matches Ok(u) ==> url_parse_of(s@) == Some(u@),
        r is Err ==> url_parse_of(s@) is None,
{
    url::Url::parse(s).map(String::from)
}

/// `url::Url::from_file_path` on `std::path::Path::new(p)`, the URL given
/// back by its serialisation. Its source refuses a path that is not
/// absolute, which on Unix is one that does not start with `/`.
#[verifier::external_body]
fn url_from_file_path(p: &str) -> (r: Option<String>)
    ensures
        r matches Some(u) ==> file_url_of(p@) == Some(u@),
        r is None ==> file_url_of(p@) is None,
        !(p@.len() > 0 && p@[0] == '/') ==> r is None,
{
    url::Url::from_file_path(std::path::Path::new(p)).ok().map(String::from)
}

/// `std::path::Path::exists`: whether something is at path `p`; this
/// depends on the file system, so nothing is promised of the answer.
#[verifier::external_body]
fn path_exists(p: &str) -> bool {
    std::path::Path::new(p).exists()
}

/// Why a URL could not be made.
#[derive(Debug)]
pub enum UrlError {
    /// The URL parser refused the text.
    Parse(url::ParseError),
    /// The text names an existing file whose path cannot become a `file:`
    /// URL (a relative path).
    NotAFilePath,
}

pub open spec fn scheme_sep() -> Seq<char> {
    seq![':', '/', '/']
}

pub open spec fn about_prefix() -> Seq<char> {
    seq!['a', 'b', 'o', 'u', 't', ':']
}

pub open spec fn https_prefix() -> Seq<char> {
    seq!['h', 't', 't', 'p', 's', ':', '/', '/']
}

pub open spec fn about_blank() -> Seq<char> {
    seq!['a', 'b', 'o', 'u', 't', ':', 'b', 'l', 'a', 'n', 'k']
}

/// `s` holds `://` somewhere.
pub open spec fn has_scheme_sep(s: Seq<char>) -> bool {
    exists|i: int| 0 <= i && i + 3 <= s.len() && #[trigger] s.subrange(i, i + 3) == scheme_sep()
}

/// The text is taken as a URL as it stands: it holds `://` or starts with
/// `about:`.
pub open spec fn is_url_like(s: Seq<char>) -> bool {
    has_scheme_sep(s) || (s.len() >= 6 && s.take(6) == about_prefix())
}

/// Where the file system decides: text that is not URL-like.
pub open spec fn consults_disk(raw: Option<Seq<char>>) -> bool {
    raw matches Some(s) && !is_url_like(s)
}

/// The URL `raw` becomes, given whether a file exists at that path:
/// `Ok` with its serialisation, `Err(true)` where an existing file's path
/// could not be made a URL, `Err(false)` where the URL parser refused.
pub open spec fn normalize_spec(raw: Option<Seq<char>>, exists: bool) -> Result<Seq<char>, bool> {
    let parsed = |t: Seq<char>|
        match url_parse_of(t) {
            Some(u) => Ok(u),
            None => Err(false),
        };
    match raw {
        None => parsed(about_blank()),
        Some(s) => if is_url_like(s) {
            parsed(s)
        } else if exists {
            match file_url_of(s) {
                Some(u) => Ok(u),
                None => Err(true),
            }
        } else {
            parsed(https_prefix() + s)
        },
    }
}

/// `r` is what `normalize_spec` gives for `raw` and `exists`.
pub open spec fn normalize_outcome(
    r: Result<String, UrlError>,
    raw: Option<Seq<char>>,
    exists: bool,
) -> bool {
    match normalize_spec(raw, exists) {
        Ok(u) => r matches Ok(v) && v@ == u,
        Err(true) => r matches Err(UrlError::NotAFilePath),
        Err(false) => r matches Err(UrlError::Parse(_)),
    }
}

pub open spec fn opt_view(raw: Option<String>) -> Option<Seq<char>> {
    match raw {
        Some(s) => Some(s@),
        None => None,
    }
}

/// Whether `s` holds `://`.
fn contains_scheme_sep(s: &str) -> (b: bool)
    ensures
        b == has_scheme_sep(s@),
{
    let cs = chars_of(s);
    let n = cs.len();
    if n < 3 {
        return false;
    }
    let mut i: usize = 0;
    while i < n - 2
        invariant
            cs@ == s@,
            n == cs@.len() == s@.len(),
            n >= 3,
            i <= n - 2,
            forall|j: int| 0 <= j < i ==> #[trigger] s@.subrange(j, j + 3) != scheme_sep(),
        decreases n - i,
    {
        if cs[i] == ':' && cs[i + 1] == '/' && cs[i + 2] == '/' {
            assert(s@.subrange(i as int, i + 3) =~= scheme_sep());
            return true;
        }
        proof {
            let t = s@.subrange(i as int, i + 3);
            if t == scheme_sep() {
                assert(t[0] == cs@[i as int]);
                assert(t[1] == cs@[i + 1]);
                assert(t[2] == cs@[i + 2]);
            }
        }
        i = i + 1;
    }
    false
}

/// Whether `s` starts with `about:`.
fn starts_with_about(s: &str) -> (b: bool)
    ensures
        b == (s@.len() >= 6 && s@.take(6) == about_prefix()),
{
    let cs = chars_of(s);
    if cs.len() < 6 {
        return false;
    }
    let b = cs[0] == 'a' && cs[1] == 'b' && cs[2] == 'o' && cs[3] == 'u' && cs[4] == 't' && cs[5]
        == ':';
    proof {
        if b {
            assert(s@.take(6) =~= about_prefix());
        } else if s@.take(6) == about_prefix() {
            assert(s@.take(6)[0] == cs@[0]);
            assert(s@.take(6)[1] == cs@[1]);
            assert(s@.take(6)[2] == cs@[2]);
            assert(s@.take(6)[3] == cs@[3]);
            assert(s@.take(6)[4] == cs@[4]);
            assert(s@.take(6)[5] == cs@[5]);
        }
    }
    b
}

fn parse_or_error(s: &str) -> (r: Result<String, UrlError>)
    ensures
        r matches Ok(u) ==> url_parse_of(s@) == Some(u@),
        r is Err ==> (r matches Err(UrlError::Parse(_)) && url_parse_of(s@) is None),
{
    match parse_url(s) {
        Ok(u) => Ok(u),
        Err(e) => Err(UrlError::Parse(e)),
    }
}

/// The URL for `raw`, with `exists` telling whether a file is at that
/// path; see `normalize_spec`.
pub fn normalize_url_with(raw: Option<String>, exists: bool) -> (r: Result<String, UrlError>)
    ensures
        normalize_outcome(r, opt_view(raw), exists),
{
    match raw {
        None => {
            let blank = "about:blank";
            proof {
                reveal_strlit("about:blank");
                assert(blank@ =~= about_blank());
            }
            parse_or_error(blank)
        },
        Some(raw) => {
            if contains_scheme_sep(raw.as_str()) || starts_with_about(raw.as_str()) {
                return parse_or_error(raw.as_str());
            }
            if exists {
                return match url_from_file_path(raw.as_str()) {
                    Some(u) => Ok(u),
                    None => Err(UrlError::NotAFilePath),
                };
            }
            let prefix = "https://";
            proof {
                reveal_strlit("https://");
                assert(prefix@ =~= https_prefix());
            }
            let full = concat(prefix, raw.as_str());
            parse_or_error(full.as_str())
        },
    }
}

/// The URL to load for `raw`; the file system is asked whether a file is
/// at that path only where `consults_disk` holds.
pub fn normalize_url(raw: Option<String>) -> (r: Result<String, UrlError>)
    ensures
        !consults_disk(opt_view(raw)) ==> normalize_outcome(r, opt_view(raw), false),
        consults_disk(opt_view(raw)) ==> (normalize_outcome(r, opt_view(raw), true)
            || normalize_outcome(r, opt_view(raw), false)),
{
    let exists = match &raw {
        Some(s) => {
            if contains_scheme_sep(s.as_str()) || starts_with_about(s.as_str()) {
                false
            } else {
                path_exists(s.as_str())
            }
        },
        None => false,
    };
    normalize_url_with(raw, exists)
}

} // verus!
