//! A live request and a live response as plain values, bodies already read
//! into memory, and the two checks that `http-types` makes on them.

use crate::ordered_map::Headers;
use crate::text::{clone_opt, opt_view};
use http_types::{Method, StatusCode};
use std::str::FromStr;
use vstd::prelude::*;

verus! {

/// A request on its way to the transport.
#[derive(Debug)]
pub struct LiveRequest {
    pub method: String,
    pub url: String,
    pub headers: Headers,
    pub body: Option<String>,
    pub version: String,
}

/// What a [`LiveRequest`] holds.
pub struct LiveRequestView {
    pub method: Seq<char>,
    pub url: Seq<char>,
    pub headers: Seq<(Seq<char>, Seq<Seq<char>>)>,
    pub body: Option<Seq<char>>,
    pub version: Seq<char>,
}

impl View for LiveRequest {
    type V = LiveRequestView;

    open spec fn view(&self) -> LiveRequestView {
        LiveRequestView {
            method: self.method@,
            url: self.url@,
            headers: self.headers@,
            body: opt_view(self.body),
            version: self.version@,
        }
    }
}

impl Clone for LiveRequest {
    fn clone(&self) -> (r: Self)
        ensures
            r@ == self@,
    {
        LiveRequest {
            method: self.method.clone(),
            url: self.url.clone(),
            headers: self.headers.clone(),
            body: clone_opt(&self.body),
            version: self.version.clone(),
        }
    }
}

/// A response as the transport returned it.
#[derive(Debug)]
pub struct LiveResponse {
    pub status: u16,
    pub headers: Headers,
    pub body: Option<String>,
    pub version: String,
}

/// What a [`LiveResponse`] holds.
pub struct LiveResponseView {
    pub status: u16,
    pub headers: Seq<(Seq<char>, Seq<Seq<char>>)>,
    pub body: Option<Seq<char>>,
    pub version: Seq<char>,
}

impl View for LiveResponse {
    type V = LiveResponseView;

    open spec fn view(&self) -> LiveResponseView {
        LiveResponseView {
            status: self.status,
            headers: self.headers@,
            body: opt_view(self.body),
            version: self.version@,
        }
    }
}

impl Clone for LiveResponse {
    fn clone(&self) -> (r: Self)
        ensures
            r@ == self@,
    {
        LiveResponse {
            status: self.status,
            headers: self.headers.clone(),
            body: clone_opt(&self.body),
            version: self.version.clone(),
        }
    }
}

/// The canonical name of an HTTP method, or `None` where the text names none.
pub uninterp spec fn canonical_method(text: Seq<char>) -> Option<Seq<char>>;

/// Whether a number is one of the status codes that `http-types` knows.
pub uninterp spec fn is_status_code(code: u16) -> bool;

/// `Method::from_str` of `http-types`, followed by `to_string`. Trusted: the
/// result is a function of the text alone.
#[verifier::external_body]
pub(crate) fn parse_method(text: &str) -> (out: Option<String>)
    ensures
        match out {
            Some(s) => canonical_method(text@) == Some(s@),
            None => canonical_method(text@).is_none(),
        },
{
    match Method::from_str(text) {
        Ok(method) => Some(method.to_string()),
        Err(_) => None,
    }
}

/// `StatusCode::try_from` of `http-types`. Trusted: whether it succeeds is a
/// function of the number alone.
#[verifier::external_body]
pub(crate) fn status_is_known(code: u16) -> (known: bool)
    ensures
        known == is_status_code(code),
{
    StatusCode::try_from(code).is_ok()
}

} // verus!
