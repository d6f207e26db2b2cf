//! A filter made of a function that the caller supplies.

use crate::filter::Filter;
use crate::ordered_map::Headers;
use crate::serializable::{RequestView, ResponseView, SerializableRequest, SerializableResponse};
use vstd::prelude::*;
use vstd::string::*;

verus! {

/// The response that stands beside a request while a custom filter runs on
/// the request alone.
pub open spec fn is_placeholder_response(r: ResponseView) -> bool {
    &&& r.status == 200
    &&& r.headers.len() == 0
    &&& r.body.is_none()
    &&& r.body_base64.is_none()
    &&& r.version == "Http1_1"@
}

/// The request that stands beside a response while a custom filter runs on
/// the response alone.
pub open spec fn is_placeholder_request(r: RequestView) -> bool {
    &&& r.method == "GET"@
    &&& r.url == "https://example.com"@
    &&& r.headers.len() == 0
    &&& r.body.is_none()
    &&& r.body_base64.is_none()
    &&& r.version == "Http1_1"@
}

/// A filter that hands a request and a response to a function and stores
/// what the function returns.
pub struct CustomFilter<F> where
    F: Fn(SerializableRequest, SerializableResponse) -> (SerializableRequest, SerializableResponse)
        + Send + Sync,
 {
    filter_fn: F,
}

impl<F> CustomFilter<F> where
    F: Fn(SerializableRequest, SerializableResponse) -> (SerializableRequest, SerializableResponse)
        + Send + Sync,
 {
    #[verifier::type_invariant]
    spec fn callable(&self) -> bool {
        forall|request: SerializableRequest, response: SerializableResponse| #[trigger]
            self.filter_fn.requires((request, response))
    }

    /// The function that the filter runs.
    pub closed spec fn function(&self) -> F {
        self.filter_fn
    }

    /// A filter that runs `filter_fn`, which must accept every request and
    /// response.
    pub fn new(filter_fn: F) -> (f: Self)
        requires
            forall|request: SerializableRequest, response: SerializableResponse| #[trigger]
                filter_fn.requires((request, response)),
        ensures
            f.function() == filter_fn,
    {
        CustomFilter { filter_fn }
    }
}

impl<F> Filter for CustomFilter<F> where
    F: Fn(SerializableRequest, SerializableResponse) -> (SerializableRequest, SerializableResponse)
        + Send + Sync,
 {
    open spec fn request_outcome(&self, before: RequestView, after: RequestView) -> bool {
        exists|
            request: SerializableRequest,
            response: SerializableResponse,
            out: (SerializableRequest, SerializableResponse),
        |
            request@ == before && is_placeholder_response(response@) && out.0@ == after
                && #[trigger] self.function().ensures((request, response), out)
    }

    open spec fn response_outcome(&self, before: ResponseView, after: ResponseView) -> bool {
        exists|
            request: SerializableRequest,
            response: SerializableResponse,
            out: (SerializableRequest, SerializableResponse),
        |
            response@ == before && is_placeholder_request(request@) && out.1@ == after
                && #[trigger] self.function().ensures((request, response), out)
    }

    fn filter_request(&self, request: &mut SerializableRequest) {
        proof {
            use_type_invariant(self);
        }
        let placeholder = SerializableResponse {
            status: 200,
            headers: Headers::new(),
            body: None,
            body_base64: None,
            version: String::from_str("Http1_1"),
        };
        let input = request.clone();
        let out = (self.filter_fn)(input, placeholder);
        assert(self.function().ensures((input, placeholder), out));
        assert(is_placeholder_response(placeholder@));
        *request = out.0;
    }

    fn filter_response(&self, response: &mut SerializableResponse) {
        proof {
            use_type_invariant(self);
        }
        let placeholder = SerializableRequest {
            method: String::from_str("GET"),
            url: String::from_str("https://example.com"),
            headers: Headers::new(),
            body: None,
            body_base64: None,
            version: String::from_str("Http1_1"),
        };
        let input = response.clone();
        let out = (self.filter_fn)(placeholder, input);
        assert(self.function().ensures((placeholder, input), out));
        assert(is_placeholder_request(placeholder@));
        *response = out.1;
    }
}

} // verus!
