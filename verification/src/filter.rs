//! Filters: the transformations applied to what is stored, and to nothing
//! else. A chain runs its filters in order, each on the output of the one
//! before.

use crate::ordered_map::{has_key, with_entry, without_key, Fields, Headers};
use crate::serializable::{RequestView, ResponseView, SerializableRequest, SerializableResponse};
use vstd::prelude::*;
use vstd::string::*;

verus! {

/// A transformation of stored requests and responses.
pub trait Filter: Send + Sync {
    /// Whether the filter may turn the request `before` into `after`.
    spec fn request_outcome(&self, before: RequestView, after: RequestView) -> bool;

    /// Whether the filter may turn the response `before` into `after`.
    spec fn response_outcome(&self, before: ResponseView, after: ResponseView) -> bool;

    /// Rewrites a request in place.
    fn filter_request(&self, request: &mut SerializableRequest)
        ensures
            self.request_outcome(old(request)@, final(request)@),
    ;

    /// Rewrites a response in place.
    fn filter_response(&self, response: &mut SerializableResponse)
        ensures
            self.response_outcome(old(response)@, final(response)@),
    ;
}

/// Whether the first `n` of `filters`, run in order, may turn the request
/// `before` into `after`.
pub open spec fn chain_request_outcome<T: Filter + ?Sized>(
    filters: Seq<Box<T>>,
    n: nat,
    before: RequestView,
    after: RequestView,
) -> bool
    decreases n,
{
    if n == 0 || n > filters.len() {
        after == before
    } else {
        exists|mid: RequestView|
            chain_request_outcome(filters, (n - 1) as nat, before, mid) && #[trigger] filters[n
                - 1].request_outcome(mid, after)
    }
}

/// Whether the first `n` of `filters`, run in order, may turn the response
/// `before` into `after`.
pub open spec fn chain_response_outcome<T: Filter + ?Sized>(
    filters: Seq<Box<T>>,
    n: nat,
    before: ResponseView,
    after: ResponseView,
) -> bool
    decreases n,
{
    if n == 0 || n > filters.len() {
        after == before
    } else {
        exists|mid: ResponseView|
            chain_response_outcome(filters, (n - 1) as nat, before, mid) && #[trigger] filters[n
                - 1].response_outcome(mid, after)
    }
}

/// One more filter extends what a chain may do.
pub proof fn lemma_chain_request_step<T: Filter + ?Sized>(
    filters: Seq<Box<T>>,
    n: nat,
    before: RequestView,
    mid: RequestView,
    after: RequestView,
)
    requires
        n < filters.len(),
        chain_request_outcome(filters, n, before, mid),
        filters[n as int].request_outcome(mid, after),
    ensures
        chain_request_outcome(filters, n + 1, before, after),
{
    assert(filters[(n + 1) - 1].request_outcome(mid, after));
}

/// One more filter extends what a chain may do.
pub proof fn lemma_chain_response_step<T: Filter + ?Sized>(
    filters: Seq<Box<T>>,
    n: nat,
    before: ResponseView,
    mid: ResponseView,
    after: ResponseView,
)
    requires
        n < filters.len(),
        chain_response_outcome(filters, n, before, mid),
        filters[n as int].response_outcome(mid, after),
    ensures
        chain_response_outcome(filters, n + 1, before, after),
{
    assert(filters[(n + 1) - 1].response_outcome(mid, after));
}

/// An ordered list of boxed filters: of any kind, or all of the kind `T`.
pub struct FilterChain<T: Filter + ?Sized = dyn Filter> {
    filters: Vec<Box<T>>,
}

impl<T: Filter + ?Sized> View for FilterChain<T> {
    type V = Seq<Box<T>>;

    closed spec fn view(&self) -> Seq<Box<T>> {
        self.filters@
    }
}

impl FilterChain<dyn Filter> {
    /// A chain for filters of any kind, without filters yet.
    pub fn new() -> (c: Self)
        ensures
            c@.len() == 0,
    {
        FilterChain::empty()
    }
}

impl<T: Filter + ?Sized> FilterChain<T> {
    /// Whether the whole chain may turn the request `before` into `after`.
    pub open spec fn request_outcome(&self, before: RequestView, after: RequestView) -> bool {
        chain_request_outcome(self@, self@.len(), before, after)
    }

    /// Whether the whole chain may turn the response `before` into `after`.
    pub open spec fn response_outcome(&self, before: ResponseView, after: ResponseView) -> bool {
        chain_response_outcome(self@, self@.len(), before, after)
    }

    /// A chain without filters.
    pub fn empty() -> (c: Self)
        ensures
            c@.len() == 0,
    {
        FilterChain { filters: Vec::new() }
    }

    /// The chain with one more filter at its end.
    pub fn add_filter(self, filter: Box<T>) -> (c: Self)
        ensures
            c@ == self@.push(filter),
    {
        let mut filters = self.filters;
        filters.push(filter);
        FilterChain { filters }
    }

    /// Runs every filter, in order, on a request.
    pub fn filter_request(&self, request: &mut SerializableRequest)
        ensures
            self.request_outcome(old(request)@, final(request)@),
    {
        let mut i: usize = 0;
        while i < self.filters.len()
            invariant
                i <= self.filters.len(),
                chain_request_outcome(self@, i as nat, old(request)@, request@),
            decreases self.filters.len() - i,
        {
            let ghost mid = request@;
            self.filters[i].filter_request(request);
            proof {
                lemma_chain_request_step(self@, i as nat, old(request)@, mid, request@);
            }
            i += 1;
        }
    }

    /// Runs every filter, in order, on a response.
    pub fn filter_response(&self, response: &mut SerializableResponse)
        ensures
            self.response_outcome(old(response)@, final(response)@),
    {
        let mut i: usize = 0;
        while i < self.filters.len()
            invariant
                i <= self.filters.len(),
                chain_response_outcome(self@, i as nat, old(response)@, response@),
            decreases self.filters.len() - i,
        {
            let ghost mid = response@;
            self.filters[i].filter_response(response);
            proof {
                lemma_chain_response_step(self@, i as nat, old(response)@, mid, response@);
            }
            i += 1;
        }
    }
}

impl Default for FilterChain<dyn Filter> {
    fn default() -> (c: Self)
        ensures
            c@.len() == 0,
    {
        FilterChain::empty()
    }
}

/// The names in a list of strings.
pub open spec fn names_view(names: Seq<String>) -> Seq<Seq<char>> {
    names.map_values(|s: String| s@)
}

/// `headers` after the first `n` of `names` have been removed.
pub open spec fn headers_removed(
    headers: Seq<(Seq<char>, Seq<Seq<char>>)>,
    names: Seq<Seq<char>>,
    n: nat,
) -> Seq<(Seq<char>, Seq<Seq<char>>)>
    decreases n,
{
    if n == 0 || n > names.len() {
        headers
    } else {
        without_key(headers_removed(headers, names, (n - 1) as nat), names[n - 1])
    }
}

/// `headers` after the first `n` of `replacements` have been applied: a
/// header that is present gets the replacement as its only value.
pub open spec fn headers_replaced(
    headers: Seq<(Seq<char>, Seq<Seq<char>>)>,
    replacements: Seq<(Seq<char>, Seq<char>)>,
    n: nat,
) -> Seq<(Seq<char>, Seq<Seq<char>>)>
    decreases n,
{
    if n == 0 || n > replacements.len() {
        headers
    } else {
        let prev = headers_replaced(headers, replacements, (n - 1) as nat);
        if has_key(prev, replacements[n - 1].0) {
            with_entry(prev, replacements[n - 1].0, seq![replacements[n - 1].1])
        } else {
            prev
        }
    }
}

/// Removes headers and replaces the values of headers.
#[derive(Debug)]
pub struct HeaderFilter {
    headers_to_remove: Vec<String>,
    headers_to_replace: Fields,
}

impl HeaderFilter {
    /// The names of the headers that are removed, in the order given.
    pub closed spec fn removed(&self) -> Seq<Seq<char>> {
        names_view(self.headers_to_remove@)
    }

    /// The headers whose values are replaced, with the replacements.
    pub closed spec fn replaced(&self) -> Seq<(Seq<char>, Seq<char>)> {
        self.headers_to_replace@
    }

    /// What the filter makes of a header map: the removals first, then the
    /// replacements.
    pub open spec fn filtered(&self, headers: Seq<(Seq<char>, Seq<Seq<char>>)>) -> Seq<
        (Seq<char>, Seq<Seq<char>>),
    > {
        headers_replaced(
            headers_removed(headers, self.removed(), self.removed().len()),
            self.replaced(),
            self.replaced().len(),
        )
    }

    /// A filter that changes nothing.
    pub fn new() -> (f: Self)
        ensures
            f.removed().len() == 0,
            f.replaced().len() == 0,
    {
        HeaderFilter { headers_to_remove: Vec::new(), headers_to_replace: Fields::new() }
    }

    /// Also removes `header`.
    pub fn remove_header(self, header: &str) -> (f: Self)
        ensures
            f.removed() == self.removed().push(header@),
            f.replaced() == self.replaced(),
    {
        let mut names = self.headers_to_remove;
        names.push(String::from_str(header));
        let f = HeaderFilter { headers_to_remove: names, headers_to_replace: self.headers_to_replace };
        assert(f.removed() =~= self.removed().push(header@));
        f
    }

    /// Also replaces the values of `header` by `replacement`.
    pub fn replace_header(self, header: &str, replacement: &str) -> (f: Self)
        ensures
            f.removed() == self.removed(),
            f.replaced() == with_entry(self.replaced(), header@, replacement@),
    {
        let mut replace = self.headers_to_replace;
        replace.insert(String::from_str(header), String::from_str(replacement));
        HeaderFilter { headers_to_remove: self.headers_to_remove, headers_to_replace: replace }
    }

    /// Also removes the headers that carry credentials.
    pub fn remove_auth_headers(self) -> (f: Self)
        ensures
            f.removed() == self.removed().push("Authorization"@).push("Cookie"@).push(
                "Set-Cookie"@,
            ).push("X-API-Key"@).push("X-Auth-Token"@),
            f.replaced() == self.replaced(),
    {
        self.remove_header("Authorization").remove_header("Cookie").remove_header(
            "Set-Cookie",
        ).remove_header("X-API-Key").remove_header("X-Auth-Token")
    }

    /// Applies the filter to a header map.
    pub fn filter_headers(&self, headers: &mut Headers)
        ensures
            final(headers)@ == self.filtered(old(headers)@),
    {
        let mut i: usize = 0;
        while i < self.headers_to_remove.len()
            invariant
                i <= self.headers_to_remove.len(),
                headers@ == headers_removed(old(headers)@, self.removed(), i as nat),
            decreases self.headers_to_remove.len() - i,
        {
            let _ = headers.remove(self.headers_to_remove[i].as_str());
            i += 1;
        }
        let ghost stripped = headers@;
        let mut j: usize = 0;
        while j < self.headers_to_replace.len()
            invariant
                j <= self.headers_to_replace@.len(),
                headers@ == headers_replaced(stripped, self.replaced(), j as nat),
            decreases self.headers_to_replace@.len() - j,
        {
            let name = self.headers_to_replace.key_at(j);
            if headers.contains_key(name.as_str()) {
                let mut values: Vec<String> = Vec::new();
                values.push(self.headers_to_replace.value_at(j).clone());
                assert(values.deep_view() =~= seq![self.replaced()[j as int].1]);
                headers.insert(name.clone(), values);
            }
            j += 1;
        }
    }
}

impl Filter for HeaderFilter {
    open spec fn request_outcome(&self, before: RequestView, after: RequestView) -> bool {
        after == RequestView { headers: self.filtered(before.headers), ..before }
    }

    open spec fn response_outcome(&self, before: ResponseView, after: ResponseView) -> bool {
        after == ResponseView { headers: self.filtered(before.headers), ..before }
    }

    fn filter_request(&self, request: &mut SerializableRequest) {
        self.filter_headers(&mut request.headers);
    }

    fn filter_response(&self, response: &mut SerializableResponse) {
        self.filter_headers(&mut response.headers);
    }
}

impl Default for HeaderFilter {
    fn default() -> (f: Self)
        ensures
            f.removed().len() == 0,
            f.replaced().len() == 0,
    {
        HeaderFilter::new()
    }
}

} // verus!
