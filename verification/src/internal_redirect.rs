//! Resolving where an internal redirect leads: the decisions around one probe request sent
//! without following redirects.

use vstd::prelude::*;
use vstd::string::StringExecFns;
use crate::error::AppError;
use crate::text::{string_of, trim, trimmed};
use crate::urls::{url_error_of, url_join, url_join_of, url_parse_error};

verus! {

/// The probe's URL must parse as an absolute URL; its error is a URL error.
pub fn check_probe_url(url: &str) -> (r: Result<(), AppError>)
    ensures
        url_error_of(url@) is None <==> r is Ok,
        r matches Err(e) ==> (e matches AppError::Url(m) && Some(m@) == url_error_of(url@)),
{
    match url_parse_error(url) {
        None => Ok(()),
        Some(e) => Err(AppError::Url(e)),
    }
}

/// A 3xx status.
pub open spec fn is_redirection(status: u16) -> bool {
    300 <= status < 400
}

/// A 2xx status.
pub open spec fn is_success(status: u16) -> bool {
    200 <= status < 300
}

/// Where the probe of `url` leads, from its answer: the status, the status as printed, the
/// `Location` header when it was readable text, and the URL that answered. A redirection
/// with a location leads to the location resolved against `url`; any other answer that is
/// neither a success nor a redirection is a bad gateway; otherwise the probe leads to the
/// URL that answered.
pub fn redirect_probe_result(
    url: &str,
    status: u16,
    status_text: &str,
    location: Option<&str>,
    final_url: &str,
) -> (r: Result<String, AppError>)
    ensures
        is_redirection(status) && location is Some ==> match url_join_of(url@, location->0@) {
            Ok(u) => (r matches Ok(s) && s@ == u),
            Err(e) => (r matches Err(AppError::Url(m)) && m@ == e),
        },
        !(is_redirection(status) && location is Some) && !is_success(status) && !is_redirection(
            status,
        ) ==> (r matches Err(AppError::BadGateway(m)) && m@ == "internal redirect probe returned "@
            + status_text@),
        !(is_redirection(status) && location is Some) && (is_success(status) || is_redirection(
            status,
        )) ==> (r matches Ok(s) && s@ == final_url@),
{
    let redirection = 300 <= status && status < 400;
    if redirection {
        if let Some(loc) = location {
            return match url_join(url, loc) {
                Ok(u) => Ok(u),
                Err(e) => Err(AppError::Url(e)),
            };
        }
    }
    let success = 200 <= status && status < 300;
    if !success && !redirection {
        let mut m = String::from_str("internal redirect probe returned ");
        m.append(status_text);
        return Err(AppError::BadGateway(m));
    }
    Ok(String::from_str(final_url))
}


/// The `User-Agent` the probe sends: the given one trimmed, none when that is empty.
pub fn probe_user_agent(user_agent: &str) -> (r: Option<String>)
    ensures
        r is Some <==> trim(user_agent@).len() > 0,
        r matches Some(s) ==> s@ == trim(user_agent@),
{
    let t = trimmed(user_agent);
    if t.len() == 0 {
        None
    } else {
        Some(string_of(&t))
    }
}

/// The URL a redirect is sent to: the probed final URL when internal redirects are enabled
/// and the probe succeeded, the URL itself otherwise.
pub fn internal_redirect_choice(enabled: bool, url: &str, probed: Option<String>) -> (r: String)
    ensures
        r@ == match probed {
            Some(p) => if enabled {
                p@
            } else {
                url@
            },
            None => url@,
        },
{
    if !enabled {
        return String::from_str(url);
    }
    match probed {
        Some(p) => p,
        None => String::from_str(url),
    }
}

} // verus!
