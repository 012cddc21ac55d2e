use vstd::prelude::*;
use crate::bindings::{
    parse_bare_url, trim_text, url_accepts, url_bare_text_of, url_path_of, url_query_pairs_of,
    url_scheme_of,
};
use crate::text::{find_text, occurs_at, same_text, trimmed};

verus! {

/// Why a service URL could not be turned into a broker endpoint.
#[derive(Debug)]
pub enum EndpointError {
    /// The URL parser refused the text; its message.
    InvalidEndpoint(String),
    /// A web scheme was to be rewritten, but the URL's text has no `"://"`;
    /// the text.
    MissingSchemeSeparator(String),
}

/// The parts of a parsed URL that endpoint normalisation reads: its scheme,
/// its path, its serialisation without query and fragment, and its decoded
/// query pairs.
pub struct ParsedUrl {
    pub scheme: String,
    pub path: String,
    pub text: String,
    pub pairs: Vec<(String, String)>,
}

/// A normalised broker endpoint and the bearer token to attach, if any.
#[derive(Debug)]
pub struct ConnectionTarget {
    pub service_url: String,
    pub token: Option<String>,
}

pub open spec fn separator() -> Seq<char> {
    seq![':', '/', '/']
}

pub open spec fn token_key() -> Seq<char> {
    seq!['t', 'o', 'k', 'e', 'n']
}

/// The broker scheme that stands for a web scheme: secure variants map to
/// `pulsar+ssl`, plain ones to `pulsar`; any other scheme is kept.
pub open spec fn mapped_scheme(scheme: Seq<char>) -> Option<Seq<char>> {
    if scheme == seq!['w', 's', 's'] || scheme == seq!['h', 't', 't', 'p', 's'] {
        Some(seq!['p', 'u', 'l', 's', 'a', 'r', '+', 's', 's', 'l'])
    } else if scheme == seq!['w', 's'] || scheme == seq!['h', 't', 't', 'p'] {
        Some(seq!['p', 'u', 'l', 's', 'a', 'r'])
    } else {
        None
    }
}

/// Drops the trailing `/` of a serialisation whose path is exactly the root.
pub open spec fn strip_root(serialized: Seq<char>, path: Seq<char>) -> Seq<char> {
    if path == seq!['/'] && serialized.len() > 0 && serialized.last() == '/' {
        serialized.drop_last()
    } else {
        serialized
    }
}

pub open spec fn first_index(s: Seq<char>, pat: Seq<char>) -> int {
    choose|i: int| occurs_at(s, pat, i) && forall|j: int| 0 <= j < i ==> !occurs_at(s, pat, j)
}

/// The endpoint text for a URL with the given scheme, path and serialisation
/// (query and fragment already removed); none when a web scheme is to be
/// rewritten and the text has no `"://"`.
pub open spec fn normalized_text(scheme: Seq<char>, path: Seq<char>, serialized: Seq<char>) -> Option<
    Seq<char>,
> {
    let text = strip_root(serialized, path);
    match mapped_scheme(scheme) {
        None => Some(text),
        Some(target) => if exists|i: int| occurs_at(text, separator(), i) {
            Some(
                target + separator() + text.subrange(
                    first_index(text, separator()) + 3,
                    text.len() as int,
                ),
            )
        } else {
            None
        },
    }
}

/// The value of the first pair whose key is `key`.
pub open spec fn first_value(pairs: Seq<(Seq<char>, Seq<char>)>, key: Seq<char>) -> Option<
    Seq<char>,
>
    decreases pairs.len(),
{
    if pairs.len() == 0 {
        None
    } else if pairs[0].0 == key {
        Some(pairs[0].1)
    } else {
        first_value(pairs.drop_first(), key)
    }
}

pub open spec fn pair_views(v: Seq<(String, String)>) -> Seq<(Seq<char>, Seq<char>)> {
    v.map_values(|p: (String, String)| (p.0@, p.1@))
}

pub open spec fn opt_text(o: Option<String>) -> Option<Seq<char>> {
    match o {
        Some(s) => Some(s@),
        None => None,
    }
}

/// A token or certificate source that is present and not blank.
pub open spec fn usable(o: Option<String>) -> bool {
    o is Some && trimmed(o->0@).len() > 0
}

/// The value of the first `token` query pair.
pub fn first_token(pairs: &Vec<(String, String)>) -> (r: Option<String>)
    ensures
        opt_text(r) == first_value(pair_views(pairs@), token_key()),
{
    let ghost pv = pair_views(pairs@);
    let key = "token";
    proof {
        reveal_strlit("token");
        assert(pv.subrange(0, pv.len() as int) =~= pv);
    }
    let mut i: usize = 0;
    while i < pairs.len()
        invariant
            pv == pair_views(pairs@),
            i <= pairs.len(),
            key@ == token_key(),
            first_value(pv, token_key()) == first_value(
                pv.subrange(i as int, pv.len() as int),
                token_key(),
            ),
        decreases pairs.len() - i,
    {
        let ghost rest = pv.subrange(i as int, pv.len() as int);
        assert(rest[0] == (pairs@[i as int].0@, pairs@[i as int].1@));
        if same_text(pairs[i].0.as_str(), key) {
            return Some(pairs[i].1.clone());
        }
        assert(rest.drop_first() =~= pv.subrange(i + 1, pv.len() as int));
        i = i + 1;
    }
    None
}

/// Rewrites a parsed URL's serialisation into a broker endpoint: the root
/// path is dropped and a web scheme becomes the matching broker scheme.
pub fn normalize_endpoint(scheme: &str, path: &str, serialized: &str) -> (r: Result<
    String,
    EndpointError,
>)
    ensures
        match normalized_text(scheme@, path@, serialized@) {
            Some(t) => r is Ok && r->Ok_0@ == t,
            None => r is Err && r->Err_0 is MissingSchemeSeparator,
        },
{
    proof {
        reveal_strlit("/");
        reveal_strlit("wss");
        reveal_strlit("https");
        reveal_strlit("ws");
        reveal_strlit("http");
        reveal_strlit("pulsar+ssl");
        reveal_strlit("pulsar");
        reveal_strlit("://");
    }
    assert("/"@ =~= seq!['/']);
    assert("://"@ =~= separator());
    assert("wss"@ =~= seq!['w', 's', 's']);
    assert("https"@ =~= seq!['h', 't', 't', 'p', 's']);
    assert("ws"@ =~= seq!['w', 's']);
    assert("http"@ =~= seq!['h', 't', 't', 'p']);
    assert("pulsar+ssl"@ =~= seq!['p', 'u', 'l', 's', 'a', 'r', '+', 's', 's', 'l']);
    assert("pulsar"@ =~= seq!['p', 'u', 'l', 's', 'a', 'r']);
    let n = serialized.unicode_len();
    let root = same_text(path, "/");
    let text: String = if root && n > 0 && serialized.get_char(n - 1) == '/' {
        let t = String::from_str(serialized.substring_char(0, n - 1));
        assert(t@ =~= serialized@.drop_last());
        t
    } else {
        String::from_str(serialized)
    };
    assert(text@ == strip_root(serialized@, path@));
    let target: Option<&str> = if same_text(scheme, "wss") || same_text(scheme, "https") {
        Some("pulsar+ssl")
    } else if same_text(scheme, "ws") || same_text(scheme, "http") {
        Some("pulsar")
    } else {
        None
    };
    match target {
        None => Ok(text),
        Some(t) => match find_text(text.as_str(), "://") {
            Some(i) => {
                let len = text.unicode_len();
                let rest = text.as_str().substring_char(i + 3, len);
                proof {
                    let fi = first_index(text@, separator());
                    assert(occurs_at(text@, separator(), i as int));
                    assert(occurs_at(text@, separator(), fi) && forall|j: int|
                        0 <= j < fi ==> !occurs_at(text@, separator(), j));
                    assert(fi == i);
                }
                let out = String::from_str(t).concat("://").concat(rest);
                Ok(out)
            },
            None => Err(EndpointError::MissingSchemeSeparator(text)),
        },
    }
}

/// The broker endpoint for a service URL: none when the URL does not parse
/// or a web scheme is to be rewritten and its text has no `"://"`.
pub open spec fn split_endpoint(s: Seq<char>) -> Option<Seq<char>> {
    if url_accepts(s) {
        normalized_text(url_scheme_of(s), url_path_of(s), url_bare_text_of(s))
    } else {
        None
    }
}

/// The value of the first `token` pair in a service URL's query.
pub open spec fn embedded_token(s: Seq<char>) -> Option<Seq<char>> {
    first_value(url_query_pairs_of(s), token_key())
}

/// Splits a service URL into its broker endpoint and the token embedded in
/// its query, if any.
pub fn split_url_and_token(service_url: &str) -> (r: Result<
    (String, Option<String>),
    EndpointError,
>)
    ensures
        !url_accepts(service_url@) <==> (r is Err && r->Err_0 is InvalidEndpoint),
        url_accepts(service_url@) ==> match split_endpoint(service_url@) {
            Some(n) => r is Ok && r->Ok_0.0@ == n && opt_text(r->Ok_0.1) == embedded_token(
                service_url@,
            ),
            None => r is Err && r->Err_0 is MissingSchemeSeparator,
        },
{
    let parsed = match parse_bare_url(service_url) {
        Ok(u) => u,
        Err(e) => {
            return Err(EndpointError::InvalidEndpoint(e.to_string()));
        },
    };
    let token = first_token(&parsed.pairs);
    match normalize_endpoint(parsed.scheme.as_str(), parsed.path.as_str(), parsed.text.as_str()) {
        Ok(normalized) => Ok((normalized, token)),
        Err(e) => Err(e),
    }
}

/// The trimmed text of a token or certificate source that is not blank.
pub fn non_blank_trimmed(o: &Option<String>) -> (r: Option<String>)
    ensures
        usable(*o) ==> r is Some && r->0@ == trimmed(o->0@),
        !usable(*o) ==> r is None,
{
    match o {
        Some(s) => {
            let t = trim_text(s.as_str());
            if t.unicode_len() > 0 {
                Some(t)
            } else {
                None
            }
        },
        None => None,
    }
}

/// The token a connection uses: an explicit one that is not blank wins over
/// the one embedded in the URL.
pub fn effective_token(explicit: Option<String>, embedded: Option<String>) -> (r: Option<String>)
    ensures
        r == (if usable(explicit) {
            explicit
        } else {
            embedded
        }),
{
    let keep = match &explicit {
        Some(s) => {
            let t = trim_text(s.as_str());
            t.unicode_len() > 0
        },
        None => false,
    };
    if keep {
        explicit
    } else {
        embedded
    }
}

/// How certificate material is trusted.
#[derive(Debug)]
pub enum CertificateSource {
    /// Load the certificate chain from this file.
    File(String),
    /// Trust these PEM bytes directly.
    Inline(Vec<u8>),
}

/// A certificate source that names an existing file is read from that file;
/// any other text is itself the PEM content, as UTF-8 bytes.
pub fn certificate_source(ca: &str, file_exists: bool) -> (r: CertificateSource)
    ensures
        file_exists ==> r is File && r->File_0@ == ca@,
        !file_exists ==> r is Inline && r->Inline_0@ == vstd::utf8::encode_utf8(ca@),
{
    if file_exists {
        CertificateSource::File(String::from_str(ca))
    } else {
        CertificateSource::Inline(ca.as_bytes_vec())
    }
}

/// The token text a connection attaches: an explicit token that is not
/// blank, trimmed; else the URL's embedded token, trimmed, unless blank.
pub open spec fn chosen_token(explicit: Option<String>, s: Seq<char>) -> Option<Seq<char>> {
    if usable(explicit) {
        Some(trimmed(explicit->0@))
    } else {
        match embedded_token(s) {
            Some(e) => if trimmed(e).len() > 0 {
                Some(trimmed(e))
            } else {
                None
            },
            None => None,
        }
    }
}

/// The endpoint and bearer token that a connection attempt uses for a
/// service URL and an optional explicit token.
pub fn resolve_connection(service_url: &str, token: Option<String>) -> (r: Result<
    ConnectionTarget,
    EndpointError,
>)
    ensures
        !url_accepts(service_url@) <==> (r is Err && r->Err_0 is InvalidEndpoint),
        url_accepts(service_url@) ==> match split_endpoint(service_url@) {
            Some(n) => r is Ok && r->Ok_0.service_url@ == n && opt_text(r->Ok_0.token)
                == chosen_token(token, service_url@),
            None => r is Err && r->Err_0 is MissingSchemeSeparator,
        },
{
    let (service, embedded) = match split_url_and_token(service_url) {
        Ok(p) => p,
        Err(e) => {
            return Err(e);
        },
    };
    let chosen = effective_token(token, embedded);
    let bearer = non_blank_trimmed(&chosen);
    Ok(ConnectionTarget { service_url: service, token: bearer })
}

/// An endpoint that is already normalised splits to itself with no token:
/// one that parses to a broker scheme, with no query pairs, no root path, and
/// a serialisation equal to its own text.
pub proof fn lemma_normalized_endpoint_is_fixed(s: Seq<char>)
    requires
        url_accepts(s),
        mapped_scheme(url_scheme_of(s)) is None,
        url_query_pairs_of(s).len() == 0,
        url_bare_text_of(s) == s,
        strip_root(s, url_path_of(s)) == s,
    ensures
        split_endpoint(s) == Some(s),
        embedded_token(s) is None,
{
}

/// A web scheme is replaced by its broker scheme, the rest of the URL is kept,
/// and a root path is dropped.
pub proof fn lemma_web_scheme_mapped(scheme: Seq<char>, rest: Seq<char>, path: Seq<char>)
    requires
        mapped_scheme(scheme) is Some,
        rest.len() > 0,
    ensures
        normalized_text(scheme, path, scheme + separator() + rest) == Some(
            mapped_scheme(scheme)->0 + separator() + strip_root(rest, path),
        ),
{
    let whole = scheme + separator() + rest;
    let text = strip_root(whole, path);
    let tail = strip_root(rest, path);
    assert(text =~= scheme + separator() + tail);
    let k = scheme.len() as int;
    assert(forall|j: int| 0 <= j < k ==> scheme[j] != ':');
    assert(text.subrange(k, k + 3) =~= separator());
    assert(occurs_at(text, separator(), k));
    assert forall|j: int| 0 <= j < k implies !occurs_at(text, separator(), j) by {
        if occurs_at(text, separator(), j) {
            assert(text.subrange(j, j + 3)[0] == text[j]);
            assert(text[j] == scheme[j]);
        }
    }
    let fi = first_index(text, separator());
    assert(occurs_at(text, separator(), fi) && forall|j: int|
        0 <= j < fi ==> !occurs_at(text, separator(), j));
    assert(fi == k);
    assert(text.subrange(k + 3, text.len() as int) =~= tail);
}

} // verus!
