//! Download links of OpenList, the storage that `.strm` files point to.

use vstd::prelude::*;
use vstd::string::StringExecFns;
use crate::text::{chars_of, opt_string_view, slice_chars, starts_with, starts_with_chars, string_of};
use crate::urls::{percent_decode, percent_decoded, url_path, url_path_of, url_scheme, url_scheme_of};

verus! {

/// The storage path of an OpenList download link: the URL's path after `/d/`, with a leading
/// `/`, percent-decoded.
pub open spec fn openlist_path_spec(http_url: Seq<char>) -> Option<Seq<char>> {
    match url_path_of(http_url) {
        Some(p) => if starts_with(p, "/d/"@) {
            percent_decoded("/"@ + p.subrange(3, p.len() as int))
        } else {
            None
        },
        None => None,
    }
}

/// The storage path an OpenList download link names (see [`openlist_path_spec`]).
pub fn extract_openlist_path(http_url: &str) -> (r: Option<String>)
    ensures
        opt_string_view(r) == openlist_path_spec(http_url@),
{
    proof {
        reveal_strlit("/d/");
        reveal_strlit("/");
    }
    let path = match url_path(http_url) {
        Some(p) => p,
        None => {
            return None;
        },
    };
    let pv = chars_of(path.as_str());
    let prefix = chars_of("/d/");
    if !starts_with_chars(&pv, &prefix) {
        return None;
    }
    let rest = slice_chars(&pv, 3, pv.len());
    let mut raw = String::from_str("/");
    let tail = string_of(&rest);
    raw.append(tail.as_str());
    percent_decode(raw.as_str())
}

/// The key a direct link is cached under: `item:source:user-agent`, the source `default`
/// when none is named.
pub fn cache_key(item_id: &str, media_source_id: Option<&str>, user_agent: &str) -> (r: String)
    ensures
        r@ == item_id@ + ":"@ + match media_source_id {
            Some(s) => s@,
            None => "default"@,
        } + ":"@ + user_agent@,
{
    let mut r = String::from_str(item_id);
    r.append(":");
    r.append(crate::rewrite::source_label(media_source_id));
    r.append(":");
    r.append(user_agent);
    r
}

/// Why a raw link from OpenList is refused.
#[derive(Debug, Clone, Copy, PartialEq, Eq, Structural)]
pub enum RawUrlError {
    /// OpenList returned no link.
    Missing,
    /// The link is not an absolute URL.
    Unparsable,
    /// The link is neither `http` nor `https`.
    Scheme,
}

/// The raw link OpenList returned, when it is an absolute `http` or `https` URL.
pub fn ensure_raw_url(value: Option<String>) -> (r: Result<String, RawUrlError>)
    ensures
        match value {
            None => r == Err::<String, RawUrlError>(RawUrlError::Missing),
            Some(v) => match url_scheme_of(v@) {
                None => r == Err::<String, RawUrlError>(RawUrlError::Unparsable),
                Some(s) => if s == "http"@ || s == "https"@ {
                    r matches Ok(out) && out@ == v@
                } else {
                    r == Err::<String, RawUrlError>(RawUrlError::Scheme)
                },
            },
        },
{
    let value = match value {
        Some(v) => v,
        None => {
            return Err(RawUrlError::Missing);
        },
    };
    let scheme = match url_scheme(value.as_str()) {
        Some(s) => s,
        None => {
            return Err(RawUrlError::Unparsable);
        },
    };
    if crate::client_control::str_eq_lit(&scheme, "http") || crate::client_control::str_eq_lit(
        &scheme,
        "https",
    ) {
        Ok(value)
    } else {
        Err(RawUrlError::Scheme)
    }
}

} // verus!
