//! Response wrapper values a handler may return, and the exceptions it may
//! raise to choose the wire status itself.
use vstd::prelude::*;

verus! {

/// An HTML page with its status.
#[derive(Clone, Debug)]
pub struct PyHTMLResponse {
    pub content: String,
    pub status_code: u16,
}

impl PyHTMLResponse {
    pub fn new(content: String, status_code: u16) -> (r: Self)
        ensures
            r.content == content,
            r.status_code == status_code,
    {
        PyHTMLResponse { content, status_code }
    }
}

/// A JSON document, already serialised, with its status.
#[derive(Clone, Debug)]
pub struct PyJSONResponse {
    pub content: String,
    pub status_code: u16,
}

impl PyJSONResponse {
    pub fn new(content: String, status_code: u16) -> (r: Self)
        ensures
            r.content == content,
            r.status_code == status_code,
    {
        PyJSONResponse { content, status_code }
    }
}

/// Plain text with its status.
#[derive(Clone, Debug)]
pub struct PyPlainTextResponse {
    pub content: String,
    pub status_code: u16,
}

impl PyPlainTextResponse {
    pub fn new(content: String, status_code: u16) -> (r: Self)
        ensures
            r.content == content,
            r.status_code == status_code,
    {
        PyPlainTextResponse { content, status_code }
    }
}

/// A redirect to `url`; status 301 asks for a permanent redirect, any other
/// for a temporary one.
#[derive(Clone, Debug)]
pub struct PyRedirectResponse {
    pub url: String,
    pub status_code: u16,
}

impl PyRedirectResponse {
    pub fn new(url: String, status_code: u16) -> (r: Self)
        ensures
            r.url == url,
            r.status_code == status_code,
    {
        PyRedirectResponse { url, status_code }
    }
}

/// Raised by a handler to answer with this status, detail and headers.
#[derive(Clone, Debug)]
pub struct PyHTTPException {
    pub status_code: u16,
    pub detail: Option<String>,
    pub headers: Option<Vec<(String, String)>>,
}

impl PyHTTPException {
    pub fn new(status_code: u16, detail: Option<String>, headers: Option<Vec<(String, String)>>) -> (r: Self)
        ensures
            r.status_code == status_code,
            r.detail == detail,
            r.headers == headers,
    {
        PyHTTPException { status_code, detail, headers }
    }
}

/// Raised by a WebSocket handler to close the connection with a code.
#[derive(Clone, Debug)]
pub struct PyWebSocketException {
    pub code: u16,
    pub reason: Option<String>,
}

impl PyWebSocketException {
    pub fn new(code: u16, reason: Option<String>) -> (r: Self)
        ensures
            r.code == code,
            r.reason == reason,
    {
        PyWebSocketException { code, reason }
    }
}

} // verus!
