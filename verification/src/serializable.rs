//! The stored form of a request and of a response, and the rule that decides
//! when a body is stored as an opaque Base64 payload.

use crate::encoding::{base64_bytes, base64_encode, base64_text, decode_payload, decoded_text, PayloadError};
use crate::error::{ErrorKind, VcrError};
use crate::http::{
    canonical_method, is_status_code, parse_method, status_is_known, LiveRequest, LiveResponse,
};
use crate::ordered_map::Headers;
use crate::text::{byte_len, clone_opt, concat, opt_view, to_chars};
use crate::url_query::{normalized_url, parse_url};
use vstd::prelude::*;
use vstd::string::*;
use vstd::utf8::*;

verus! {

/// The number of characters of `s` outside ASCII.
pub open spec fn non_ascii_count(s: Seq<char>) -> nat
    decreases s.len(),
{
    if s.len() == 0 {
        0
    } else {
        non_ascii_count(s.drop_last()) + if (s.last() as u32) < 128 {
            0nat
        } else {
            1nat
        }
    }
}

/// Whether a body is stored as an opaque payload rather than as inline text:
/// it holds both `<` and `>`, or it holds `%` and is longer than 100 bytes,
/// or more than a tenth of its byte length is non-ASCII characters.
pub open spec fn needs_opaque_encoding(content: Seq<char>) -> bool {
    ||| content.contains('<') && content.contains('>')
    ||| content.contains('%') && encode_utf8(content).len() > 100
    ||| non_ascii_count(content) > encode_utf8(content).len() / 10
}

/// How a live body is stored: the inline text and the opaque payload, at
/// most one of them present.
pub open spec fn stored_body(body: Option<Seq<char>>) -> (Option<Seq<char>>, Option<Seq<char>>) {
    match body {
        Some(b) => if needs_opaque_encoding(b) {
            (None, Some(base64_text(encode_utf8(b))))
        } else {
            (Some(b), None)
        },
        None => (None, None),
    }
}

/// The body that a stored pair stands for. The inline text wins; an opaque
/// payload is decoded. The outer `None` says that the payload cannot be
/// decoded.
pub open spec fn body_text(body: Option<Seq<char>>, body_base64: Option<Seq<char>>) -> Option<
    Option<Seq<char>>,
> {
    match body {
        Some(b) => Some(Some(b)),
        None => match body_base64 {
            Some(p) => match decoded_text(p) {
                Some(t) => Some(Some(t)),
                None => None,
            },
            None => Some(None),
        },
    }
}

/// Decides whether a body must be stored as an opaque payload.
pub fn should_base64_encode(content: &str) -> (r: bool)
    ensures
        r == needs_opaque_encoding(content@),
{
    let v = to_chars(content);
    let len = byte_len(content);
    let mut lt = false;
    let mut gt = false;
    let mut percent = false;
    let mut non_ascii: usize = 0;
    let mut i: usize = 0;
    while i < v.len()
        invariant
            i <= v.len(),
            v@ == content@,
            lt == v@.take(i as int).contains('<'),
            gt == v@.take(i as int).contains('>'),
            percent == v@.take(i as int).contains('%'),
            non_ascii == non_ascii_count(v@.take(i as int)),
            non_ascii <= i,
        decreases v.len() - i,
    {
        let c = v[i];
        proof {
            let before = v@.take(i as int);
            let after = v@.take(i + 1);
            assert(after.drop_last() =~= before);
            assert(after.last() == c);
            assert(after =~= before.push(c));
            assert forall|x: char| after.contains(x) == (before.contains(x) || x == c) by {
                if before.contains(x) {
                    let k = choose|k: int| 0 <= k < before.len() && before[k] == x;
                    assert(after[k] == x);
                }
                if x == c {
                    assert(after[i as int] == x);
                }
            }
        }
        if c == '<' {
            lt = true;
        }
        if c == '>' {
            gt = true;
        }
        if c == '%' {
            percent = true;
        }
        if (c as u32) >= 128 {
            non_ascii += 1;
        }
        i += 1;
    }
    assert(v@.take(v.len() as int) =~= v@);
    (lt && gt) || (percent && len > 100) || non_ascii > len / 10
}

/// Splits a live body into the stored inline text and opaque payload.
pub fn encode_body(body: Option<String>) -> (r: (Option<String>, Option<String>))
    ensures
        (opt_view(r.0), opt_view(r.1)) == stored_body(opt_view(body)),
        body_text(opt_view(r.0), opt_view(r.1)) == Some(opt_view(body)),
{
    match body {
        Some(b) => {
            if should_base64_encode(b.as_str()) {
                let payload = base64_encode(b.as_str());
                proof {
                    crate::encoding::lemma_payload_round_trip(b@, payload@);
                }
                (None, Some(payload))
            } else {
                (Some(b), None)
            }
        },
        None => (None, None),
    }
}

/// Recovers the body that a stored pair stands for.
pub fn decode_body(body: &Option<String>, body_base64: &Option<String>) -> (r: Result<
    Option<String>,
    PayloadError,
>)
    ensures
        match r {
            Ok(b) => body_text(opt_view(*body), opt_view(*body_base64)) == Some(opt_view(b)),
            Err(PayloadError::NotBase64) => body.is_none() && body_base64.is_some() && base64_bytes(
                body_base64.unwrap()@,
            ).is_none(),
            Err(PayloadError::NotUtf8) => body.is_none() && body_base64.is_some() && base64_bytes(
                body_base64.unwrap()@,
            ).is_some() && decoded_text(body_base64.unwrap()@).is_none(),
        },
{
    match body {
        Some(b) => Ok(Some(b.clone())),
        None => match body_base64 {
            Some(p) => match decode_payload(p.as_str()) {
                Ok(t) => Ok(Some(t)),
                Err(e) => Err(e),
            },
            None => Ok(None),
        },
    }
}

/// A request in the form in which it is stored.
#[derive(Debug)]
pub struct SerializableRequest {
    pub method: String,
    pub url: String,
    pub headers: Headers,
    pub body: Option<String>,
    pub body_base64: Option<String>,
    pub version: String,
}

/// What a [`SerializableRequest`] holds.
pub struct RequestView {
    pub method: Seq<char>,
    pub url: Seq<char>,
    pub headers: Seq<(Seq<char>, Seq<Seq<char>>)>,
    pub body: Option<Seq<char>>,
    pub body_base64: Option<Seq<char>>,
    pub version: Seq<char>,
}

impl View for SerializableRequest {
    type V = RequestView;

    open spec fn view(&self) -> RequestView {
        RequestView {
            method: self.method@,
            url: self.url@,
            headers: self.headers@,
            body: opt_view(self.body),
            body_base64: opt_view(self.body_base64),
            version: self.version@,
        }
    }
}

impl Clone for SerializableRequest {
    fn clone(&self) -> (r: Self)
        ensures
            r@ == self@,
    {
        SerializableRequest {
            method: self.method.clone(),
            url: self.url.clone(),
            headers: self.headers.clone(),
            body: clone_opt(&self.body),
            body_base64: clone_opt(&self.body_base64),
            version: self.version.clone(),
        }
    }
}

/// The stored form of a live request.
pub open spec fn stored_request(live: crate::http::LiveRequestView) -> RequestView {
    RequestView {
        method: live.method,
        url: live.url,
        headers: live.headers,
        body: stored_body(live.body).0,
        body_base64: stored_body(live.body).1,
        version: live.version,
    }
}

/// The status and the message with which a stored request is refused as a
/// live one, or `None` where it is accepted. The method is checked first,
/// then the URL, then the opaque payload.
pub open spec fn request_refusal(r: RequestView) -> Option<(u16, Seq<char>)> {
    if canonical_method(r.method).is_none() {
        Some((400u16, "Invalid method: "@ + r.method))
    } else if normalized_url(r.url).is_none() {
        Some((400u16, "Invalid URL: "@ + r.url))
    } else if r.body.is_none() && r.body_base64.is_some() {
        if base64_bytes(r.body_base64.unwrap()).is_none() {
            Some((500u16, "Failed to decode base64 body"@))
        } else if decoded_text(r.body_base64.unwrap()).is_none() {
            Some((500u16, "Failed to convert decoded body to string"@))
        } else {
            None
        }
    } else {
        None
    }
}

impl SerializableRequest {
    /// Decides whether a request body must be stored as an opaque payload.
    pub fn should_base64_encode(content: &str) -> (r: bool)
        ensures
            r == needs_opaque_encoding(content@),
    {
        should_base64_encode(content)
    }

    /// The stored form of a live request. The body is kept inline or as an
    /// opaque payload, and stands for the live body either way.
    pub fn from_request(req: LiveRequest) -> (r: Self)
        ensures
            r@ == stored_request(req@),
            body_text(r@.body, r@.body_base64) == Some(req@.body),
    {
        let (body, body_base64) = encode_body(req.body);
        SerializableRequest {
            method: req.method,
            url: req.url,
            headers: req.headers,
            body,
            body_base64,
            version: req.version,
        }
    }

    /// The live request that a stored one stands for, with the method in its
    /// canonical spelling and the URL in its normal form. Fails on a method
    /// or URL that does not parse and on a payload that does not decode.
    pub fn to_request(&self) -> (out: Result<LiveRequest, VcrError>)
        ensures
            match out {
                Ok(r) => {
                    &&& request_refusal(self@).is_none()
                    &&& canonical_method(self@.method) == Some(r@.method)
                    &&& normalized_url(self@.url) == Some(r@.url)
                    &&& r@.headers == self@.headers
                    &&& r@.version == self@.version
                    &&& body_text(self@.body, self@.body_base64) == Some(r@.body)
                },
                Err(e) => {
                    &&& e.kind == ErrorKind::CorruptFormat
                    &&& request_refusal(self@) == Some((e.status, e.message@))
                },
            },
    {
        let method = match parse_method(self.method.as_str()) {
            Some(m) => m,
            None => {
                return Err(
                    VcrError::new(
                        ErrorKind::CorruptFormat,
                        400,
                        concat("Invalid method: ", self.method.as_str()),
                    ),
                );
            },
        };
        let url = match parse_url(self.url.as_str()) {
            Some(u) => u,
            None => {
                return Err(
                    VcrError::new(
                        ErrorKind::CorruptFormat,
                        400,
                        concat("Invalid URL: ", self.url.as_str()),
                    ),
                );
            },
        };
        let body = match decode_body(&self.body, &self.body_base64) {
            Ok(b) => b,
            Err(PayloadError::NotBase64) => {
                return Err(
                    VcrError::new(
                        ErrorKind::CorruptFormat,
                        500,
                        String::from_str("Failed to decode base64 body"),
                    ),
                );
            },
            Err(PayloadError::NotUtf8) => {
                return Err(
                    VcrError::new(
                        ErrorKind::CorruptFormat,
                        500,
                        String::from_str("Failed to convert decoded body to string"),
                    ),
                );
            },
        };
        Ok(
            LiveRequest {
                method,
                url,
                headers: self.headers.clone(),
                body,
                version: self.version.clone(),
            },
        )
    }
}

/// A response in the form in which it is stored.
#[derive(Debug)]
pub struct SerializableResponse {
    pub status: u16,
    pub headers: Headers,
    pub body: Option<String>,
    pub body_base64: Option<String>,
    pub version: String,
}

/// What a [`SerializableResponse`] holds.
pub struct ResponseView {
    pub status: u16,
    pub headers: Seq<(Seq<char>, Seq<Seq<char>>)>,
    pub body: Option<Seq<char>>,
    pub body_base64: Option<Seq<char>>,
    pub version: Seq<char>,
}

impl View for SerializableResponse {
    type V = ResponseView;

    open spec fn view(&self) -> ResponseView {
        ResponseView {
            status: self.status,
            headers: self.headers@,
            body: opt_view(self.body),
            body_base64: opt_view(self.body_base64),
            version: self.version@,
        }
    }
}

impl Clone for SerializableResponse {
    fn clone(&self) -> (r: Self)
        ensures
            r@ == self@,
    {
        SerializableResponse {
            status: self.status,
            headers: self.headers.clone(),
            body: clone_opt(&self.body),
            body_base64: clone_opt(&self.body_base64),
            version: self.version.clone(),
        }
    }
}

/// The stored form of a live response.
pub open spec fn stored_response(live: crate::http::LiveResponseView) -> ResponseView {
    ResponseView {
        status: live.status,
        headers: live.headers,
        body: stored_body(live.body).0,
        body_base64: stored_body(live.body).1,
        version: live.version,
    }
}

/// The live response that a stored one stands for: an unknown status becomes
/// 500, and a payload that cannot be decoded leaves the body out.
pub open spec fn replayed_response(r: ResponseView) -> crate::http::LiveResponseView {
    crate::http::LiveResponseView {
        status: if is_status_code(r.status) {
            r.status
        } else {
            500
        },
        headers: r.headers,
        body: match body_text(r.body, r.body_base64) {
            Some(b) => b,
            None => None,
        },
        version: r.version,
    }
}

impl SerializableResponse {
    /// Decides whether a response body must be stored as an opaque payload.
    pub fn should_base64_encode(content: &str) -> (r: bool)
        ensures
            r == needs_opaque_encoding(content@),
    {
        should_base64_encode(content)
    }

    /// The stored form of a live response.
    pub fn from_response(res: LiveResponse) -> (r: Self)
        ensures
            r@ == stored_response(res@),
            body_text(r@.body, r@.body_base64) == Some(res@.body),
    {
        let (body, body_base64) = encode_body(res.body);
        SerializableResponse {
            status: res.status,
            headers: res.headers,
            body,
            body_base64,
            version: res.version,
        }
    }

    /// The live response that a stored one stands for.
    pub fn to_response(&self) -> (r: LiveResponse)
        ensures
            r@ == replayed_response(self@),
    {
        let status = if status_is_known(self.status) {
            self.status
        } else {
            500
        };
        let body = match decode_body(&self.body, &self.body_base64) {
            Ok(b) => b,
            Err(_) => None,
        };
        LiveResponse { status, headers: self.headers.clone(), body, version: self.version.clone() }
    }
}

} // verus!
