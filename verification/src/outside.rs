//! What this crate takes on trust.
//!
//! Each function here wraps one call into code that Verus does not read. The
//! contract above each body is believed, not proved.

use base64::Engine;
use vstd::prelude::*;
use vstd::utf8::*;

verus! {

/// The lower-case form of a UTF-8 text as `str::to_lowercase` computes it, by
/// the Unicode `Lowercase` property. Bytes that are no UTF-8 are read as U+FFFD.
pub uninterp spec fn lowercase(text: Seq<u8>) -> Seq<u8>;

/// Wraps `str::to_lowercase`. The result is a function of the text alone; it
/// is not spelled out here, only named.
#[verifier::external_body]
pub(crate) fn to_lowercase(text: &[u8]) -> (lowered: Vec<u8>)
    ensures
        lowered@ == lowercase(text@),
{
    String::from_utf8_lossy(text).to_lowercase().into_bytes()
}

/// Wraps `std::str::from_utf8`, which succeeds exactly on well-formed UTF-8.
#[verifier::external_body]
pub(crate) fn is_valid_utf8(bytes: &[u8]) -> (valid: bool)
    ensures
        valid == valid_utf8(bytes@),
{
    std::str::from_utf8(bytes).is_ok()
}

/// The name/value pairs that `form_urlencoded::parse` yields for a query
/// string, in order. It splits at `&`, skips empty pieces, splits each piece
/// at its first `=`, turns `+` into a space, undoes percent-encoding and
/// replaces what is not UTF-8 with U+FFFD.
pub uninterp spec fn query_pairs(query: Seq<u8>) -> Seq<(Seq<u8>, Seq<u8>)>;

/// Wraps `url::form_urlencoded::parse` and collects what it yields.
#[verifier::external_body]
pub(crate) fn parse_query_pairs(query: &[u8]) -> (pairs: Vec<(Vec<u8>, Vec<u8>)>)
    ensures
        pairs.deep_view() == query_pairs(query@),
{
    url::form_urlencoded::parse(query).map(
        |(name, value)| (name.into_owned().into_bytes(), value.into_owned().into_bytes()),
    ).collect()
}

/// The parts of an absolute URL that this crate reads.
pub struct UrlParts {
    pub scheme: Vec<u8>,
    pub host: Option<Vec<u8>>,
    pub port: Option<u16>,
    pub path: Vec<u8>,
    pub query: Option<Vec<u8>>,
}

pub struct UrlPartsView {
    pub scheme: Seq<u8>,
    pub host: Option<Seq<u8>>,
    pub port: Option<u16>,
    pub path: Seq<u8>,
    pub query: Option<Seq<u8>>,
}

impl View for UrlParts {
    type V = UrlPartsView;

    open spec fn view(&self) -> UrlPartsView {
        UrlPartsView {
            scheme: self.scheme@,
            host: match self.host {
                Some(host) => Some(host@),
                None => None,
            },
            port: self.port,
            path: self.path@,
            query: match self.query {
                Some(query) => Some(query@),
                None => None,
            },
        }
    }
}

/// What `url::Url::parse` makes of a text given as bytes (ill-formed UTF-8
/// read as U+FFFD): `None` where it reports an error, else what the
/// methods `scheme`, `host_str`, `port`, `path` and `query` give of the URL.
pub uninterp spec fn url_parts(input: Seq<u8>) -> Option<UrlPartsView>;

/// Wraps `url::Url::parse` and copies out scheme, host, port, path and query.
#[verifier::external_body]
pub(crate) fn parse_url(input: &[u8]) -> (parts: Option<UrlParts>)
    ensures
        parts is Some == url_parts(input@) is Some,
        parts matches Some(p) ==> url_parts(input@) == Some(p@),
{
    let parsed = url::Url::parse(&String::from_utf8_lossy(input)).ok()?;
    Some(
        UrlParts {
            scheme: parsed.scheme().as_bytes().to_vec(),
            host: parsed.host_str().map(|host| host.as_bytes().to_vec()),
            port: parsed.port(),
            path: parsed.path().as_bytes().to_vec(),
            query: parsed.query().map(|query| query.as_bytes().to_vec()),
        },
    )
}

/// The text of the first capture group in the leftmost match of a regular
/// expression in a text, as the `regex` crate finds it: `None` where the
/// expression does not compile, where it matches nowhere, or where the
/// group took no part in the match. Bytes that are no UTF-8 are read as U+FFFD.
pub uninterp spec fn first_group(pattern: Seq<u8>, text: Seq<u8>) -> Option<Seq<u8>>;

/// Wraps `regex::Regex::new`, `Regex::captures` and `Captures::get(1)`.
#[verifier::external_body]
pub(crate) fn regex_first_group(pattern: &[u8], text: &[u8]) -> (group: Option<Vec<u8>>)
    ensures
        group is Some == first_group(pattern@, text@) is Some,
        group matches Some(g) ==> first_group(pattern@, text@) == Some(g@),
{
    let regex = regex::Regex::new(&String::from_utf8_lossy(pattern)).ok()?;
    let text = String::from_utf8_lossy(text);
    let found = regex.captures(&text)?;
    found.get(1).map(|group| group.as_str().as_bytes().to_vec())
}

/// The standard Base64 form of bytes, with padding, as the `base64` crate's
/// `STANDARD` engine writes it.
pub uninterp spec fn base64_standard(bytes: Seq<u8>) -> Seq<u8>;

/// Wraps `base64::engine::general_purpose::STANDARD.encode`. The crate
/// panics where the length of the result does not fit in `usize`; inputs of
/// at most half that length are far from it.
#[verifier::external_body]
pub(crate) fn base64_encode(bytes: &[u8]) -> (encoded: Vec<u8>)
    requires
        bytes@.len() <= usize::MAX / 2,
    ensures
        encoded@ == base64_standard(bytes@),
{
    base64::engine::general_purpose::STANDARD.encode(bytes).into_bytes()
}

/// Why a URL could not be put together, with the words of the `url` crate's error.
pub enum UrlBuildError {
    /// The base is no absolute URL.
    Base(Vec<u8>),
    /// The path cannot be joined to the base.
    Join(Vec<u8>),
}

pub enum UrlBuildErrorView {
    Base(Seq<u8>),
    Join(Seq<u8>),
}

impl View for UrlBuildError {
    type V = UrlBuildErrorView;

    open spec fn view(&self) -> UrlBuildErrorView {
        match self {
            UrlBuildError::Base(words) => UrlBuildErrorView::Base(words@),
            UrlBuildError::Join(words) => UrlBuildErrorView::Join(words@),
        }
    }
}

/// The longest text that is handed to the `url` crate for building a URL.
pub const URL_PART_LIMIT: usize = 0x0100_0000;

/// The URL that the `url` crate makes of a base (`Url::parse`), a path
/// joined to it (`Url::join`) and pairs appended to its query
/// (`query_pairs_mut().append_pair`), as text; or the error of the step that failed.
pub uninterp spec fn url_with_query(
    base: Seq<u8>,
    path: Seq<u8>,
    pairs: Seq<(Seq<u8>, Seq<u8>)>,
) -> Result<Seq<u8>, UrlBuildErrorView>;

/// Wraps `url::Url::parse`, `Url::join` and `Url::query_pairs_mut`. The
/// crate counts a URL's length in 32 bits; the bounds keep it far below.
#[verifier::external_body]
pub(crate) fn build_url_with_query(base: &[u8], path: &[u8], pairs: &Vec<(Vec<u8>, Vec<u8>)>) -> (url:
    Result<Vec<u8>, UrlBuildError>)
    requires
        base@.len() <= URL_PART_LIMIT,
        path@.len() <= URL_PART_LIMIT,
        pairs@.len() <= 8,
        forall|i: int|
            0 <= i < pairs@.len() ==> (#[trigger] pairs@[i]).0@.len() <= URL_PART_LIMIT
                && pairs@[i].1@.len() <= URL_PART_LIMIT,
    ensures
        match url_with_query(base@, path@, pairs.deep_view()) {
            Ok(text) => url matches Ok(u) && u@ == text,
            Err(error) => url matches Err(e) && e@ == error,
        },
{
    let base = match url::Url::parse(&String::from_utf8_lossy(base)) {
        Ok(base) => base,
        Err(e) => return Err(UrlBuildError::Base(e.to_string().into_bytes())),
    };
    let mut url = match base.join(&String::from_utf8_lossy(path)) {
        Ok(url) => url,
        Err(e) => return Err(UrlBuildError::Join(e.to_string().into_bytes())),
    };
    for (name, value) in pairs.iter() {
        url.query_pairs_mut()
            .append_pair(&String::from_utf8_lossy(name), &String::from_utf8_lossy(value));
    }
    Ok(url.as_str().as_bytes().to_vec())
}

} // verus!
