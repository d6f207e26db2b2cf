//! The URL filter: removes query parameters and replaces their values.

use crate::body_filter::contains_name;
use crate::filter::{names_view, Filter};
use crate::ordered_map::{has_key, lookup, with_entry, Fields};
use crate::serializable::{RequestView, ResponseView, SerializableRequest, SerializableResponse};
use crate::text::byte_len;
use crate::url_query::{
    fits_serializer, normalized_url, pairs_view, parse_url, query_fits_serializer, query_pairs,
    replace_query, url_query, url_with_query,
};
use vstd::prelude::*;
use vstd::string::*;
use vstd::utf8::*;

verus! {

/// The first `n` pairs of a query, filtered: a pair whose name is to be
/// removed is dropped; one whose name is to be replaced gets the replacement
/// as its value; any other stays.
pub open spec fn pairs_filtered(
    pairs: Seq<(Seq<char>, Seq<char>)>,
    n: nat,
    remove: Seq<Seq<char>>,
    replace: Seq<(Seq<char>, Seq<char>)>,
) -> Seq<(Seq<char>, Seq<char>)>
    decreases n,
{
    if n == 0 || n > pairs.len() {
        Seq::empty()
    } else {
        let rest = pairs_filtered(pairs, (n - 1) as nat, remove, replace);
        let pair = pairs[n - 1];
        if remove.contains(pair.0) {
            rest
        } else if has_key(replace, pair.0) {
            rest.push((pair.0, lookup(replace, pair.0).unwrap()))
        } else {
            rest.push(pair)
        }
    }
}

/// A URL with its query filtered: the URL as the `url` crate writes it with
/// the filtered pairs as its query. A text that is no URL stays as it is,
/// and so does a URL whose rewriting would not fit the serializer.
pub open spec fn url_filtered(
    url: Seq<char>,
    remove: Seq<Seq<char>>,
    replace: Seq<(Seq<char>, Seq<char>)>,
) -> Seq<char> {
    match (url_query(url), normalized_url(url)) {
        (Some(pairs), Some(normalized)) => {
            let kept = pairs_filtered(pairs, pairs.len(), remove, replace);
            if fits_serializer(normalized, kept) {
                match url_with_query(url, kept) {
                    Some(rewritten) => rewritten,
                    None => url,
                }
            } else {
                url
            }
        },
        _ => url,
    }
}

/// Removes query parameters and replaces the values of query parameters.
#[derive(Debug)]
pub struct UrlFilter {
    query_params_to_remove: Vec<String>,
    query_params_to_replace: Fields,
}

impl UrlFilter {
    /// The names of the parameters that are removed.
    pub closed spec fn removed(&self) -> Seq<Seq<char>> {
        names_view(self.query_params_to_remove@)
    }

    /// The parameters whose values are replaced, with the replacements.
    pub closed spec fn replaced(&self) -> Seq<(Seq<char>, Seq<char>)> {
        self.query_params_to_replace@
    }

    /// A filter that changes no parameter.
    pub fn new() -> (f: Self)
        ensures
            f.removed().len() == 0,
            f.replaced().len() == 0,
    {
        UrlFilter { query_params_to_remove: Vec::new(), query_params_to_replace: Fields::new() }
    }

    /// Also removes the parameter `param`.
    pub fn remove_query_param(self, param: &str) -> (f: Self)
        ensures
            f.removed() == self.removed().push(param@),
            f.replaced() == self.replaced(),
    {
        let mut names = self.query_params_to_remove;
        names.push(String::from_str(param));
        let f = UrlFilter {
            query_params_to_remove: names,
            query_params_to_replace: self.query_params_to_replace,
        };
        assert(f.removed() =~= self.removed().push(param@));
        f
    }

    /// Also replaces the value of the parameter `param` by `replacement`.
    pub fn replace_query_param(self, param: &str, replacement: &str) -> (f: Self)
        ensures
            f.removed() == self.removed(),
            f.replaced() == with_entry(self.replaced(), param@, replacement@),
    {
        let mut replace = self.query_params_to_replace;
        replace.insert(String::from_str(param), String::from_str(replacement));
        UrlFilter {
            query_params_to_remove: self.query_params_to_remove,
            query_params_to_replace: replace,
        }
    }

    /// Also removes the parameters in which secrets are commonly passed.
    pub fn remove_common_sensitive_params(self) -> (f: Self)
        ensures
            f.removed() == self.removed().push("api_key"@).push("token"@).push(
                "access_token"@,
            ).push("key"@),
            f.replaced() == self.replaced(),
    {
        self.remove_query_param("api_key").remove_query_param("token").remove_query_param(
            "access_token",
        ).remove_query_param("key")
    }

    /// The pairs of a query after filtering.
    pub fn filter_pairs(&self, pairs: &Vec<(String, String)>) -> (kept: Vec<(String, String)>)
        ensures
            pairs_view(kept@) == pairs_filtered(
                pairs_view(pairs@),
                pairs.len() as nat,
                self.removed(),
                self.replaced(),
            ),
    {
        let mut kept: Vec<(String, String)> = Vec::new();
        let mut i: usize = 0;
        assert(pairs_view(kept@) =~= Seq::empty());
        while i < pairs.len()
            invariant
                i <= pairs.len(),
                pairs_view(kept@) == pairs_filtered(
                    pairs_view(pairs@),
                    i as nat,
                    self.removed(),
                    self.replaced(),
                ),
            decreases pairs.len() - i,
        {
            let ghost before = pairs_view(kept@);
            let name = &pairs[i].0;
            assert(pairs_view(pairs@)[i as int] == (pairs@[i as int].0@, pairs@[i as int].1@));
            if !contains_name(&self.query_params_to_remove, name.as_str()) {
                let value = match self.query_params_to_replace.get(name.as_str()) {
                    Some(replacement) => replacement.clone(),
                    None => pairs[i].1.clone(),
                };
                kept.push((name.clone(), value));
                assert(pairs_view(kept@) =~= before.push((name@, value@)));
            }
            i += 1;
        }
        kept
    }

    /// A URL with its query filtered.
    pub fn filter_url(&self, url: &str) -> (out: String)
        ensures
            out@ == url_filtered(url@, self.removed(), self.replaced()),
    {
        let pairs = match query_pairs(url) {
            Some(pairs) => pairs,
            None => {
                return String::from_str(url);
            },
        };
        let normalized = match parse_url(url) {
            Some(normalized) => normalized,
            None => {
                return String::from_str(url);
            },
        };
        let kept = self.filter_pairs(&pairs);
        if query_fits_serializer(byte_len(normalized.as_str()), &kept) {
            match replace_query(url, &kept) {
                Some(rewritten) => rewritten,
                None => String::from_str(url),
            }
        } else {
            String::from_str(url)
        }
    }
}

impl Filter for UrlFilter {
    open spec fn request_outcome(&self, before: RequestView, after: RequestView) -> bool {
        after == RequestView {
            url: url_filtered(before.url, self.removed(), self.replaced()),
            ..before
        }
    }

    open spec fn response_outcome(&self, before: ResponseView, after: ResponseView) -> bool {
        after == before
    }

    fn filter_request(&self, request: &mut SerializableRequest) {
        request.url = self.filter_url(request.url.as_str());
    }

    fn filter_response(&self, response: &mut SerializableResponse) {
    }
}

impl Default for UrlFilter {
    fn default() -> (f: Self)
        ensures
            f.removed().len() == 0,
            f.replaced().len() == 0,
    {
        UrlFilter::new()
    }
}

} // verus!
