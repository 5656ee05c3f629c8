//! What the `url` and `urlencoding` crates make of texts, as the library uses them.

use vstd::prelude::*;
use crate::text::opt_string_view;

verus! {

/// The scheme of `s` parsed as an absolute URL by `url::Url::parse`, `None` when it does not
/// parse.
pub uninterp spec fn url_scheme_of(s: Seq<char>) -> Option<Seq<char>>;

/// `url::Url::parse(s)` and, when it parses, `Url::scheme`. The result is named by
/// `url_scheme_of` of the text.
#[verifier::external_body]
pub(crate) fn url_scheme(s: &str) -> (r: Option<String>)
    ensures
        opt_string_view(r) == url_scheme_of(s@),
{
    url::Url::parse(s).ok().map(|u| u.scheme().to_string())
}

/// The path of `s` parsed as an absolute URL by `url::Url::parse`, `None` when it does not
/// parse.
pub uninterp spec fn url_path_of(s: Seq<char>) -> Option<Seq<char>>;

/// `url::Url::parse(s)` and, when it parses, `Url::path`. The result is named by
/// `url_path_of` of the text.
#[verifier::external_body]
pub(crate) fn url_path(s: &str) -> (r: Option<String>)
    ensures
        opt_string_view(r) == url_path_of(s@),
{
    url::Url::parse(s).ok().map(|u| u.path().to_string())
}

/// The host of `s` parsed as an absolute URL by `url::Url::parse`; `None` when it does not
/// parse or has no host.
pub uninterp spec fn url_host_of(s: Seq<char>) -> Option<Seq<char>>;

/// `url::Url::parse(s)` and, when it parses, `Url::host_str`. The result is named by
/// `url_host_of` of the text.
#[verifier::external_body]
pub(crate) fn url_host(s: &str) -> (r: Option<String>)
    ensures
        opt_string_view(r) == url_host_of(s@),
{
    url::Url::parse(s).ok().and_then(|u| u.host_str().map(|h| h.to_string()))
}

/// The text that `urlencoding::decode` makes of `s`: percent escapes decoded as UTF-8;
/// `None` when the decoded bytes are not UTF-8.
pub uninterp spec fn percent_decoded(s: Seq<char>) -> Option<Seq<char>>;

/// `urlencoding::decode(s)`, `None` on its error. The result is named by `percent_decoded`
/// of the text.
#[verifier::external_body]
pub(crate) fn percent_decode(s: &str) -> (r: Option<String>)
    ensures
        opt_string_view(r) == percent_decoded(s@),
{
    urlencoding::decode(s).ok().map(|v| v.into_owned())
}

/// The text of the error `url::Url::parse` reports for `s`; `None` when `s` parses.
pub uninterp spec fn url_error_of(s: Seq<char>) -> Option<Seq<char>>;

/// `url::Url::parse(s)` and the error's text when it fails. The result is named by
/// `url_error_of` of the text.
#[verifier::external_body]
pub(crate) fn url_parse_error(s: &str) -> (r: Option<String>)
    ensures
        opt_string_view(r) == url_error_of(s@),
{
    url::Url::parse(s).err().map(|e| e.to_string())
}

/// The texts of name/value pairs.
pub open spec fn pair_views(ps: Seq<(String, String)>) -> Seq<(Seq<char>, Seq<char>)> {
    ps.map_values(|p: (String, String)| (p.0@, p.1@))
}

/// The name/value pairs `form_urlencoded::parse` reads from a query: pieces between `&`
/// (empty ones skipped), each split at its first `=`, with `+` read as a space and percent
/// escapes decoded.
pub uninterp spec fn form_pairs_of(query: Seq<char>) -> Seq<(Seq<char>, Seq<char>)>;

/// `url::form_urlencoded::parse` of the query's bytes, the pairs owned. The result is named
/// by `form_pairs_of` of the query.
#[verifier::external_body]
pub(crate) fn form_pairs(query: &str) -> (r: Vec<(String, String)>)
    ensures
        pair_views(r@) == form_pairs_of(query@),
{
    url::form_urlencoded::parse(query.as_bytes()).into_owned().collect()
}

/// The query `form_urlencoded::Serializer` writes for the pairs, in order: `name=value`
/// joined by `&`, each name and value form-encoded.
pub uninterp spec fn form_encoded_of(pairs: Seq<(Seq<char>, Seq<char>)>) -> Seq<char>;

/// A `url::form_urlencoded::Serializer` on an empty string, every pair appended with
/// `extend_pairs`, then `finish`. The result is named by `form_encoded_of` of the pairs.
#[verifier::external_body]
pub(crate) fn form_encode(pairs: &Vec<(String, String)>) -> (r: String)
    ensures
        r@ == form_encoded_of(pair_views(pairs@)),
{
    url::form_urlencoded::Serializer::new(String::new()).extend_pairs(pairs.iter()).finish()
}


/// `base` parsed by `url::Url::parse` and `reference` resolved against it by `Url::join`,
/// as text; the error's text when either fails.
pub uninterp spec fn url_join_of(base: Seq<char>, reference: Seq<char>) -> Result<Seq<char>, Seq<char>>;

/// The text or error text of a joined URL.
pub open spec fn joined_view(r: Result<String, String>) -> Result<Seq<char>, Seq<char>> {
    match r {
        Ok(u) => Ok(u@),
        Err(e) => Err(e@),
    }
}

/// `url::Url::parse(base)`, then `Url::join(reference)` and `to_string`; each error as its
/// text. The result is named by `url_join_of` of the two texts.
#[verifier::external_body]
pub(crate) fn url_join(base: &str, reference: &str) -> (r: Result<String, String>)
    ensures
        joined_view(r) == url_join_of(base@, reference@),
{
    match url::Url::parse(base) {
        Ok(parsed) => parsed.join(reference).map(|u| u.to_string()).map_err(|e| e.to_string()),
        Err(e) => Err(e.to_string()),
    }
}


/// `url` parsed by `url::Url::parse` with the pair `name=value` appended to its query by
/// `query_pairs_mut().append_pair`, as text; the parse error's text when it does not parse.
pub uninterp spec fn url_with_pair_of(url: Seq<char>, name: Seq<char>, value: Seq<char>) -> Result<Seq<char>, Seq<char>>;

/// `url::Url::parse(url)`, then `query_pairs_mut().append_pair(name, value)` and
/// `to_string`; the parse error as its text. The result is named by `url_with_pair_of` of
/// the three texts.
#[verifier::external_body]
pub(crate) fn url_append_pair(url: &str, name: &str, value: &str) -> (r: Result<String, String>)
    ensures
        joined_view(r) == url_with_pair_of(url@, name@, value@),
{
    match url::Url::parse(url) {
        Ok(mut parsed) => {
            parsed.query_pairs_mut().append_pair(name, value);
            Ok(parsed.to_string())
        },
        Err(e) => Err(e.to_string()),
    }
}

} // verus!
