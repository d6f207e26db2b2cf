//! Matchers: the rules by which a live request is held to be the same as a
//! recorded one.

use crate::http::{LiveRequest, LiveRequestView};
use crate::ordered_map::{lookup, same_entries};
use crate::serializable::{encode_body, stored_body, RequestView, SerializableRequest};
use crate::text::{ascii_lower, clone_opt, opt_view, str_eq, strings_equal, to_ascii_lowercase};
use vstd::prelude::*;
use vstd::string::*;

verus! {

/// A rule that decides whether a request corresponds to a recorded one.
pub trait RequestMatcher: Send + Sync {
    /// Whether a live request corresponds to a recorded one.
    spec fn live_match(&self, request: LiveRequestView, recorded: RequestView) -> bool;

    /// Whether a request in stored form corresponds to a recorded one.
    spec fn stored_match(&self, request: RequestView, recorded: RequestView) -> bool;

    /// Compares a live request with a recorded one.
    fn matches(&self, request: &LiveRequest, recorded_request: &SerializableRequest) -> (r: bool)
        ensures
            r == self.live_match(request@, recorded_request@),
    ;

    /// Compares a request in stored form with a recorded one.
    fn matches_serializable(
        &self,
        request: &SerializableRequest,
        recorded_request: &SerializableRequest,
    ) -> (r: bool)
        ensures
            r == self.stored_match(request@, recorded_request@),
    ;
}

/// The names in a list of strings.
pub open spec fn header_names(names: Seq<String>) -> Seq<Seq<char>> {
    names.map_values(|s: String| s@)
}

/// Whether two optional strings hold the same text.
pub fn opt_eq(a: &Option<String>, b: &Option<String>) -> (r: bool)
    ensures
        r == (opt_view(*a) == opt_view(*b)),
{
    match a {
        Some(x) => match b {
            Some(y) => str_eq(x.as_str(), y.as_str()),
            None => false,
        },
        None => b.is_none(),
    }
}

/// Whether two optional lists hold the same strings.
pub fn opt_values_eq(a: Option<&Vec<String>>, b: Option<&Vec<String>>) -> (r: bool)
    ensures
        r == (match a {
            Some(x) => Some(x.deep_view()),
            None => None,
        } == match b {
            Some(y) => Some(y.deep_view()),
            None => None,
        }),
{
    match a {
        Some(x) => match b {
            Some(y) => strings_equal(x, y),
            None => false,
        },
        None => b.is_none(),
    }
}

/// Compares method, URL, chosen headers and body, each where it is enabled.
#[derive(Debug)]
pub struct DefaultMatcher {
    match_method: bool,
    match_url: bool,
    match_headers: Vec<String>,
    match_body: bool,
}

impl DefaultMatcher {
    /// Whether the method takes part in the comparison.
    pub closed spec fn compares_method(&self) -> bool {
        self.match_method
    }

    /// Whether the URL takes part in the comparison.
    pub closed spec fn compares_url(&self) -> bool {
        self.match_url
    }

    /// The names of the headers that take part in the comparison.
    pub closed spec fn compared_headers(&self) -> Seq<Seq<char>> {
        header_names(self.match_headers@)
    }

    /// Whether the body takes part in the comparison.
    pub closed spec fn compares_body(&self) -> bool {
        self.match_body
    }

    /// Compares method, URL and the headers `authorization`, `cookie`,
    /// `content-type` and `user-agent`.
    pub fn new() -> (m: Self)
        ensures
            m.compares_method(),
            m.compares_url(),
            !m.compares_body(),
            m.compared_headers() == seq![
                "authorization"@,
                "cookie"@,
                "content-type"@,
                "user-agent"@,
            ],
    {
        let mut names: Vec<String> = Vec::new();
        names.push(String::from_str("authorization"));
        names.push(String::from_str("cookie"));
        names.push(String::from_str("content-type"));
        names.push(String::from_str("user-agent"));
        let m = DefaultMatcher {
            match_method: true,
            match_url: true,
            match_headers: names,
            match_body: false,
        };
        assert(m.compared_headers() =~= seq![
            "authorization"@,
            "cookie"@,
            "content-type"@,
            "user-agent"@,
        ]);
        m
    }

    /// As `new`, but cookies take no part.
    pub fn without_cookies() -> (m: Self)
        ensures
            m.compares_method(),
            m.compares_url(),
            !m.compares_body(),
            m.compared_headers() == seq!["authorization"@, "content-type"@, "user-agent"@],
    {
        let mut names: Vec<String> = Vec::new();
        names.push(String::from_str("authorization"));
        names.push(String::from_str("content-type"));
        names.push(String::from_str("user-agent"));
        let m = DefaultMatcher {
            match_method: true,
            match_url: true,
            match_headers: names,
            match_body: false,
        };
        assert(m.compared_headers() =~= seq!["authorization"@, "content-type"@, "user-agent"@]);
        m
    }

    /// Sets whether the method takes part.
    pub fn with_method(self, match_method: bool) -> (m: Self)
        ensures
            m.compares_method() == match_method,
            m.compares_url() == self.compares_url(),
            m.compared_headers() == self.compared_headers(),
            m.compares_body() == self.compares_body(),
    {
        DefaultMatcher {
            match_method,
            match_url: self.match_url,
            match_headers: self.match_headers,
            match_body: self.match_body,
        }
    }

    /// Sets whether the URL takes part.
    pub fn with_url(self, match_url: bool) -> (m: Self)
        ensures
            m.compares_method() == self.compares_method(),
            m.compares_url() == match_url,
            m.compared_headers() == self.compared_headers(),
            m.compares_body() == self.compares_body(),
    {
        DefaultMatcher {
            match_method: self.match_method,
            match_url,
            match_headers: self.match_headers,
            match_body: self.match_body,
        }
    }

    /// Sets the headers that take part.
    pub fn with_headers(self, headers: Vec<String>) -> (m: Self)
        ensures
            m.compares_method() == self.compares_method(),
            m.compares_url() == self.compares_url(),
            m.compared_headers() == header_names(headers@),
            m.compares_body() == self.compares_body(),
    {
        DefaultMatcher {
            match_method: self.match_method,
            match_url: self.match_url,
            match_headers: headers,
            match_body: self.match_body,
        }
    }

    /// Sets whether the body takes part.
    pub fn with_body(self, match_body: bool) -> (m: Self)
        ensures
            m.compares_method() == self.compares_method(),
            m.compares_url() == self.compares_url(),
            m.compared_headers() == self.compared_headers(),
            m.compares_body() == match_body,
    {
        DefaultMatcher {
            match_method: self.match_method,
            match_url: self.match_url,
            match_headers: self.match_headers,
            match_body,
        }
    }
}

/// Whether a live header map and a recorded one agree on the first `n` of
/// `names`: the values are the same lists, or the header is absent on both
/// sides. The live side is looked up in lower case, as a live request keeps
/// its header names.
pub open spec fn live_headers_agree(
    live: Seq<(Seq<char>, Seq<Seq<char>>)>,
    recorded: Seq<(Seq<char>, Seq<Seq<char>>)>,
    names: Seq<Seq<char>>,
    n: nat,
) -> bool {
    forall|k: int|
        0 <= k < n && k < names.len() ==> lookup(live, ascii_lower(#[trigger] names[k])) == lookup(
            recorded,
            names[k],
        )
}

/// Whether two stored header maps agree on the first `n` of `names`.
pub open spec fn stored_headers_agree(
    request: Seq<(Seq<char>, Seq<Seq<char>>)>,
    recorded: Seq<(Seq<char>, Seq<Seq<char>>)>,
    names: Seq<Seq<char>>,
    n: nat,
) -> bool {
    forall|k: int|
        0 <= k < n && k < names.len() ==> lookup(request, #[trigger] names[k]) == lookup(
            recorded,
            names[k],
        )
}

impl RequestMatcher for DefaultMatcher {
    open spec fn live_match(&self, request: LiveRequestView, recorded: RequestView) -> bool {
        &&& self.compares_method() ==> request.method == recorded.method
        &&& self.compares_url() ==> request.url == recorded.url
        &&& live_headers_agree(
            request.headers,
            recorded.headers,
            self.compared_headers(),
            self.compared_headers().len(),
        )
        &&& self.compares_body() ==> stored_body(request.body) == (
            recorded.body,
            recorded.body_base64,
        )
    }

    open spec fn stored_match(&self, request: RequestView, recorded: RequestView) -> bool {
        &&& self.compares_method() ==> request.method == recorded.method
        &&& self.compares_url() ==> request.url == recorded.url
        &&& stored_headers_agree(
            request.headers,
            recorded.headers,
            self.compared_headers(),
            self.compared_headers().len(),
        )
        &&& self.compares_body() ==> request.body == recorded.body && request.body_base64
            == recorded.body_base64
    }

    fn matches(&self, request: &LiveRequest, recorded_request: &SerializableRequest) -> (r: bool) {
        if self.match_method && !str_eq(
            request.method.as_str(),
            recorded_request.method.as_str(),
        ) {
            return false;
        }
        if self.match_url && !str_eq(request.url.as_str(), recorded_request.url.as_str()) {
            return false;
        }
        let mut i: usize = 0;
        while i < self.match_headers.len()
            invariant
                i <= self.match_headers.len(),
                live_headers_agree(
                    request@.headers,
                    recorded_request@.headers,
                    self.compared_headers(),
                    i as nat,
                ),
            decreases self.match_headers.len() - i,
        {
            let name = &self.match_headers[i];
            assert(self.compared_headers()[i as int] == name@);
            let lower = to_ascii_lowercase(name.as_str());
            let request_header = request.headers.get(lower.as_str());
            let recorded_header = recorded_request.headers.get(name.as_str());
            if !opt_values_eq(request_header, recorded_header) {
                return false;
            }
            i += 1;
        }
        if self.match_body {
            let stored = encode_body(clone_opt(&request.body));
            if !opt_eq(&stored.0, &recorded_request.body) || !opt_eq(
                &stored.1,
                &recorded_request.body_base64,
            ) {
                return false;
            }
        }
        true
    }

    fn matches_serializable(
        &self,
        request: &SerializableRequest,
        recorded_request: &SerializableRequest,
    ) -> (r: bool) {
        if self.match_method && !str_eq(
            request.method.as_str(),
            recorded_request.method.as_str(),
        ) {
            return false;
        }
        if self.match_url && !str_eq(request.url.as_str(), recorded_request.url.as_str()) {
            return false;
        }
        let mut i: usize = 0;
        while i < self.match_headers.len()
            invariant
                i <= self.match_headers.len(),
                stored_headers_agree(
                    request@.headers,
                    recorded_request@.headers,
                    self.compared_headers(),
                    i as nat,
                ),
            decreases self.match_headers.len() - i,
        {
            let name = &self.match_headers[i];
            assert(self.compared_headers()[i as int] == name@);
            let request_header = request.headers.get(name.as_str());
            let recorded_header = recorded_request.headers.get(name.as_str());
            if !opt_values_eq(request_header, recorded_header) {
                return false;
            }
            i += 1;
        }
        if self.match_body {
            if !opt_eq(&request.body, &recorded_request.body) || !opt_eq(
                &request.body_base64,
                &recorded_request.body_base64,
            ) {
                return false;
            }
        }
        true
    }
}

impl Default for DefaultMatcher {
    fn default() -> (m: Self)
        ensures
            m.compares_method(),
            m.compares_url(),
            !m.compares_body(),
            m.compared_headers() == seq![
                "authorization"@,
                "cookie"@,
                "content-type"@,
                "user-agent"@,
            ],
    {
        DefaultMatcher::new()
    }
}

/// Compares method, URL and the whole header map.
#[derive(Debug)]
pub struct ExactMatcher;

impl RequestMatcher for ExactMatcher {
    open spec fn live_match(&self, request: LiveRequestView, recorded: RequestView) -> bool {
        &&& request.method == recorded.method
        &&& request.url == recorded.url
        &&& same_entries(request.headers, recorded.headers)
    }

    open spec fn stored_match(&self, request: RequestView, recorded: RequestView) -> bool {
        &&& request.method == recorded.method
        &&& request.url == recorded.url
        &&& same_entries(request.headers, recorded.headers)
    }

    fn matches(&self, request: &LiveRequest, recorded_request: &SerializableRequest) -> (r: bool) {
        str_eq(request.method.as_str(), recorded_request.method.as_str()) && str_eq(
            request.url.as_str(),
            recorded_request.url.as_str(),
        ) && request.headers.same_as(&recorded_request.headers)
    }

    fn matches_serializable(
        &self,
        request: &SerializableRequest,
        recorded_request: &SerializableRequest,
    ) -> (r: bool) {
        str_eq(request.method.as_str(), recorded_request.method.as_str()) && str_eq(
            request.url.as_str(),
            recorded_request.url.as_str(),
        ) && request.headers.same_as(&recorded_request.headers)
    }
}

/// A matcher that compares no header does not tell apart two requests that
/// differ in their headers alone.
pub proof fn lemma_headers_take_no_part(
    m: DefaultMatcher,
    a: RequestView,
    b: RequestView,
    recorded: RequestView,
)
    requires
        m.compared_headers().len() == 0,
        a.method == b.method,
        a.url == b.url,
        a.body == b.body,
        a.body_base64 == b.body_base64,
    ensures
        m.stored_match(a, recorded) == m.stored_match(b, recorded),
{
}

} // verus!
