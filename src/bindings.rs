use vstd::prelude::*;
use base64::Engine;
use crate::endpoint::{pair_views, ParsedUrl};
use crate::text::trimmed;

verus! {

/// Standard base-64 text (with padding) of a byte sequence.
pub uninterp spec fn base64_of(b: Seq<u8>) -> Seq<char>;

/// Relies on base64's `STANDARD` engine `encode`: the text depends on the
/// bytes alone.
#[verifier::external_body]
pub(crate) fn encode_base64(b: &[u8]) -> (r: String)
    ensures
        r@ == base64_of(b@),
{
    base64::engine::general_purpose::STANDARD.encode(b)
}


#[verifier::external_type_specification]
#[verifier::external_body]
pub struct ExUrlParseError(url::ParseError);

/// Whether the URL parser accepts a text.
pub uninterp spec fn url_accepts(s: Seq<char>) -> bool;

/// The scheme of the URL that a text parses to.
pub uninterp spec fn url_scheme_of(s: Seq<char>) -> Seq<char>;

/// The path of the URL that a text parses to.
pub uninterp spec fn url_path_of(s: Seq<char>) -> Seq<char>;

/// The serialisation of the URL that a text parses to, once its query and
/// fragment are removed.
pub uninterp spec fn url_bare_text_of(s: Seq<char>) -> Seq<char>;

/// The decoded key/value pairs of the query of the URL that a text parses
/// to, in order.
pub uninterp spec fn url_query_pairs_of(s: Seq<char>) -> Seq<(Seq<char>, Seq<char>)>;

/// Relies on `url::Url::parse`, then `query_pairs`, `set_query(None)`,
/// `set_fragment(None)`, `scheme`, `path` and `as_str`: whether the text
/// parses, and each part read, depend on the input text alone.
#[verifier::external_body]
pub(crate) fn parse_bare_url(input: &str) -> (r: Result<ParsedUrl, url::ParseError>)
    ensures
        r is Ok == url_accepts(input@),
        r is Ok ==> r->Ok_0.scheme@ == url_scheme_of(input@),
        r is Ok ==> r->Ok_0.path@ == url_path_of(input@),
        r is Ok ==> r->Ok_0.text@ == url_bare_text_of(input@),
        r is Ok ==> pair_views(r->Ok_0.pairs@) == url_query_pairs_of(input@),
{
    let mut u = url::Url::parse(input)?;
    let pairs = u.query_pairs().map(|(k, v)| (k.into_owned(), v.into_owned())).collect();
    u.set_query(None);
    u.set_fragment(None);
    let scheme = u.scheme().to_string();
    let path = u.path().to_string();
    Ok(ParsedUrl { scheme, path, text: u.as_str().to_string(), pairs })
}

/// Relies on `str::trim`: leading and trailing characters with the Unicode
/// `White_Space` property are removed.
#[verifier::external_body]
pub(crate) fn trim_text(s: &str) -> (r: String)
    ensures
        r@ == trimmed(s@),
{
    s.trim().to_string()
}

#[verifier::external_type_specification]
#[verifier::external_body]
pub struct ExJsonValue(serde_json::Value);

#[verifier::external_type_specification]
#[verifier::external_body]
pub struct ExJsonError(serde_json::Error);

/// Whether a text is one well-formed JSON document.
pub uninterp spec fn json_accepts(s: Seq<char>) -> bool;

/// Relies on `serde_json::from_str` into a `serde_json::Value`: success
/// depends on the text alone.
#[verifier::external_body]
pub(crate) fn parse_json(text: &str) -> (r: Result<serde_json::Value, serde_json::Error>)
    ensures
        r is Ok == json_accepts(text@),
{
    serde_json::from_str::<serde_json::Value>(text)
}

/// The text of a byte sequence read as UTF-8, each invalid sequence replaced
/// by U+FFFD.
pub uninterp spec fn utf8_lossy_of(b: Seq<u8>) -> Seq<char>;

/// Relies on `String::from_utf8_lossy`: the text depends on the bytes alone,
/// and no bytes give no text.
#[verifier::external_body]
pub(crate) fn lossy_text(b: &[u8]) -> (r: String)
    ensures
        r@ == utf8_lossy_of(b@),
        b@.len() == 0 ==> r@.len() == 0,
{
    String::from_utf8_lossy(b).into_owned()
}

} // verus!
