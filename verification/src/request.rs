use vstd::prelude::*;

use crate::matching::opt_view;
use crate::text::{copy_str, push_str};

verus! {

/// The HTTP methods a request can use.
#[derive(Debug, Clone, Copy, PartialEq, Eq, Structural)]
pub enum Method {
    Get,
    Post,
    Put,
    Patch,
    Delete,
    Head,
    Options,
}

impl Method {
    /// Every method, in the order the method list shows them.
    pub open spec fn listed() -> Seq<Method> {
        seq![Method::Get, Method::Post, Method::Put, Method::Patch, Method::Delete, Method::Head, Method::Options]
    }

    /// Every method, in the order the method list shows them.
    pub fn all() -> (r: Vec<Method>)
        ensures
            r@ == Self::listed(),
    {
        let mut v: Vec<Method> = Vec::new();
        v.push(Method::Get);
        v.push(Method::Post);
        v.push(Method::Put);
        v.push(Method::Patch);
        v.push(Method::Delete);
        v.push(Method::Head);
        v.push(Method::Options);
        v
    }

    /// Where the method stands in the list.
    pub open spec fn position(self) -> nat {
        match self {
            Method::Get => 0,
            Method::Post => 1,
            Method::Put => 2,
            Method::Patch => 3,
            Method::Delete => 4,
            Method::Head => 5,
            Method::Options => 6,
        }
    }

    /// Where the method stands in the list.
    pub fn index(&self) -> (r: usize)
        ensures
            r == self.position(),
            Self::listed()[r as int] == *self,
    {
        match self {
            Method::Get => 0,
            Method::Post => 1,
            Method::Put => 2,
            Method::Patch => 3,
            Method::Delete => 4,
            Method::Head => 5,
            Method::Options => 6,
        }
    }
}

/// An HTTP request as a workflow node holds it.
#[derive(Debug)]
pub struct Request {
    pub method: Method,
    pub url: String,
    pub headers: Vec<(String, String)>,
    pub body: Option<String>,
}

/// Why a request cannot be sent.
#[derive(Debug, PartialEq)]
pub enum RequestError {
    InvalidUrl(String),
}

/// The scheme of `s` when the `url` crate parses it as an absolute URL
/// (`url::Url::parse` followed by `Url::scheme`).
pub uninterp spec fn url_scheme(s: Seq<char>) -> Option<Seq<char>>;

/// Parses `s` with `url::Url::parse` and gives its scheme; `None` when it
/// does not parse. Which texts parse is the `url` crate's matter and is not
/// stated here.
#[verifier::external_body]
fn parsed_scheme(s: &str) -> (r: Option<String>)
    ensures
        opt_view(r) == url_scheme(s@),
{
    url::Url::parse(s).ok().map(|u| u.scheme().to_string())
}

/// A request can be sent when its URL parses with an `http` or `https`
/// scheme.
pub open spec fn request_sendable(url: Seq<char>) -> bool {
    url_scheme(url) == Some("http"@) || url_scheme(url) == Some("https"@)
}

/// Whether a request can be sent to `url`: it parses with an `http` or `https` scheme.
pub fn sendable_url(url: &str) -> (r: bool)
    ensures
        r == request_sendable(url@),
{
    match parsed_scheme(url) {
        Some(s) => crate::text::str_eq(s.as_str(), "http") || crate::text::str_eq(s.as_str(), "https"),
        None => false,
    }
}

impl RequestError {
    /// The human-readable text of the error.
    pub fn message(&self) -> (r: String)
        ensures
            match self {
                RequestError::InvalidUrl(u) => r@ == "Invalid URL: "@ + u@,
            },
    {
        let mut out = String::new();
        match self {
            RequestError::InvalidUrl(u) => {
                push_str(&mut out, "Invalid URL: ");
                push_str(&mut out, u.as_str());
            },
        }
        out
    }
}

impl Request {
    /// A request with no headers and no body.
    pub fn new(method: Method, url: &str) -> (r: Request)
        ensures
            r.method == method,
            r.url@ == url@,
            r.headers@.len() == 0,
            r.body is None,
    {
        Request { method, url: copy_str(url), headers: Vec::new(), body: None }
    }

    /// A copy of the request.
    pub fn copy(&self) -> (r: Request)
        ensures
            r.method == self.method,
            r.url@ == self.url@,
            r.headers@.len() == self.headers@.len(),
            forall|i: int| 0 <= i < self.headers@.len() ==> #[trigger] r.headers@[i].0@ == self.headers@[i].0@
                && r.headers@[i].1@ == self.headers@[i].1@,
            opt_view(r.body) == opt_view(self.body),
    {
        let mut headers: Vec<(String, String)> = Vec::new();
        let mut i: usize = 0;
        while i < self.headers.len()
            invariant
                i <= self.headers@.len(),
                headers@.len() == i,
                forall|k: int| 0 <= k < i ==> #[trigger] headers@[k].0@ == self.headers@[k].0@
                    && headers@[k].1@ == self.headers@[k].1@,
            decreases self.headers@.len() - i,
        {
            headers.push((self.headers[i].0.clone(), self.headers[i].1.clone()));
            i += 1;
        }
        let body = match &self.body {
            Some(b) => Some(b.clone()),
            None => None,
        };
        Request { method: self.method, url: self.url.clone(), headers, body }
    }

    /// Checks that the request can be sent: its URL must parse with an
    /// `http` or `https` scheme.
    pub fn validate(&self) -> (r: Result<(), RequestError>)
        ensures
            request_sendable(self.url@) ==> r is Ok,
            !request_sendable(self.url@) ==> (r matches Err(RequestError::InvalidUrl(u)) && u@ == self.url@),
    {
        match parsed_scheme(self.url.as_str()) {
            Some(s) => {
                if crate::text::str_eq(s.as_str(), "http") || crate::text::str_eq(s.as_str(), "https") {
                    return Ok(());
                }
            },
            None => {},
        }
        Err(RequestError::InvalidUrl(self.url.clone()))
    }
}

} // verus!
