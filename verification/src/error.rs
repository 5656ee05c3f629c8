//! The application's error type: what each error answers a client, with which HTTP status,
//! and what may be written to the logs about it.

use vstd::prelude::*;
use vstd::string::StringExecFns;

verus! {

/// What went wrong in an HTTP client call, as far as its log message tells.
#[derive(Debug, Clone, PartialEq, Eq)]
pub enum HttpFailure {
    Timeout,
    Connect,
    /// The server answered with this status, in its printed form (such as `404 Not Found`).
    Status(String),
    Decode,
    Redirect,
    Request,
    Other,
}

/// An error of the panel or of its proxy. The variants that wrap a library error hold what
/// that error prints.
#[derive(Debug, Clone, PartialEq, Eq)]
pub enum AppError {
    Config(String),
    Http(HttpFailure),
    Url(String),
    Json(String),
    Io(String),
    Database(String),
    Unauthorized(String),
    Validation(String),
    PayloadTooLarge(String),
    RateLimited(String),
    BadGateway(String),
    Internal(String),
}

/// The log message of an HTTP client failure; it never holds the request's URL.
pub open spec fn http_failure_message(f: HttpFailure) -> Seq<char> {
    match f {
        HttpFailure::Timeout => "http client timeout"@,
        HttpFailure::Connect => "http client connect error"@,
        HttpFailure::Status(s) => "http client status error: "@ + s@,
        HttpFailure::Decode => "http client decode error"@,
        HttpFailure::Redirect => "http client redirect error"@,
        HttpFailure::Request => "http client request error"@,
        HttpFailure::Other => "http client error"@,
    }
}

/// The log message of an HTTP client failure.
pub fn safe_reqwest_error_message(err: &HttpFailure) -> (r: String)
    ensures
        r@ == http_failure_message(*err),
{
    match err {
        HttpFailure::Timeout => String::from_str("http client timeout"),
        HttpFailure::Connect => String::from_str("http client connect error"),
        HttpFailure::Status(status) => {
            let mut s = String::from_str("http client status error: ");
            s.append(status.as_str());
            s
        },
        HttpFailure::Decode => String::from_str("http client decode error"),
        HttpFailure::Redirect => String::from_str("http client redirect error"),
        HttpFailure::Request => String::from_str("http client request error"),
        HttpFailure::Other => String::from_str("http client error"),
    }
}

/// The HTTP status with which an error answers.
pub open spec fn status_spec(e: AppError) -> u16 {
    match e {
        AppError::Config(_) | AppError::Internal(_) | AppError::Io(_) | AppError::Json(_)
        | AppError::Database(_) => 500,
        AppError::Unauthorized(_) => 401,
        AppError::Validation(_) => 400,
        AppError::PayloadTooLarge(_) => 413,
        AppError::RateLimited(_) => 429,
        AppError::Http(_) | AppError::Url(_) | AppError::BadGateway(_) => 502,
    }
}

/// What a client is told of an error: the message of a refused request, and otherwise only
/// the kind of failure.
pub open spec fn client_message_spec(e: AppError) -> Seq<char> {
    match e {
        AppError::Unauthorized(_) => "unauthorized"@,
        AppError::Validation(m) | AppError::PayloadTooLarge(m) | AppError::RateLimited(m) => m@,
        AppError::Config(_) | AppError::Internal(_) | AppError::Io(_) | AppError::Json(_)
        | AppError::Database(_) => "internal server error"@,
        AppError::Http(_) | AppError::Url(_) | AppError::BadGateway(_) => "bad gateway"@,
    }
}

/// What the logs are told of an error.
pub open spec fn log_message_spec(e: AppError) -> Seq<char> {
    match e {
        AppError::Http(f) => http_failure_message(f),
        AppError::Config(m) | AppError::Unauthorized(m) | AppError::Validation(m)
        | AppError::PayloadTooLarge(m) | AppError::RateLimited(m) | AppError::BadGateway(m)
        | AppError::Internal(m) => m@,
        AppError::Url(m) => "url error: "@ + m@,
        AppError::Json(m) => "json error: "@ + m@,
        AppError::Io(m) => "io error: "@ + m@,
        AppError::Database(m) => "database error: "@ + m@,
    }
}

fn prefixed(prefix: &str, text: &String) -> (r: String)
    ensures
        r@ == prefix@ + text@,
{
    let mut s = String::from_str(prefix);
    s.append(text.as_str());
    s
}

impl AppError {
    /// The message under which the error is logged.
    pub fn safe_log_message(&self) -> (r: String)
        ensures
            r@ == log_message_spec(*self),
    {
        match self {
            AppError::Http(err) => safe_reqwest_error_message(err),
            AppError::Config(message) | AppError::Unauthorized(message) | AppError::Validation(
                message,
            ) | AppError::PayloadTooLarge(message) | AppError::RateLimited(message)
            | AppError::BadGateway(message) | AppError::Internal(message) => message.clone(),
            AppError::Url(err) => prefixed("url error: ", err),
            AppError::Json(err) => prefixed("json error: ", err),
            AppError::Io(err) => prefixed("io error: ", err),
            AppError::Database(err) => prefixed("database error: ", err),
        }
    }

    /// The HTTP status of the answer.
    pub fn status(&self) -> (r: u16)
        ensures
            r == status_spec(*self),
    {
        match self {
            AppError::Config(_) | AppError::Internal(_) | AppError::Io(_) | AppError::Json(_)
            | AppError::Database(_) => 500,
            AppError::Unauthorized(_) => 401,
            AppError::Validation(_) => 400,
            AppError::PayloadTooLarge(_) => 413,
            AppError::RateLimited(_) => 429,
            AppError::Http(_) | AppError::Url(_) | AppError::BadGateway(_) => 502,
        }
    }

    /// The body of the answer.
    pub fn client_message(&self) -> (r: String)
        ensures
            r@ == client_message_spec(*self),
    {
        match self {
            AppError::Unauthorized(_) => String::from_str("unauthorized"),
            AppError::Validation(message) | AppError::PayloadTooLarge(message)
            | AppError::RateLimited(message) => message.clone(),
            AppError::Config(_) | AppError::Internal(_) | AppError::Io(_) | AppError::Json(_)
            | AppError::Database(_) => String::from_str("internal server error"),
            AppError::Http(_) | AppError::Url(_) | AppError::BadGateway(_) => String::from_str(
                "bad gateway",
            ),
        }
    }
}

/// An error answered with a server-side status tells the client only the kind of failure,
/// never the error's own text: `internal server error` for a 500, `bad gateway` for a 502.
pub proof fn lemma_server_errors_hide_details(e: AppError)
    ensures
        status_spec(e) == 500 ==> client_message_spec(e) == "internal server error"@,
        status_spec(e) == 502 ==> client_message_spec(e) == "bad gateway"@,
        status_spec(e) >= 500 ==> status_spec(e) == 500 || status_spec(e) == 502,
{
}

} // verus!
