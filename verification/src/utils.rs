//! Rewriting a whole cassette: the filters, a function of the caller, or
//! one of the ready-made scrubbers for credentials, cookies and headers.

use crate::cassette::{interactions_view, Cassette, Interaction, InteractionView};
use crate::client::{filter_interactions, refiltered};
use crate::filter::{Filter, FilterChain};
use crate::form_data::{
    analyze_form_data, credentials_among, encode_form_data, filter_form_data, form_fields,
    form_filtered, form_text, parse_form_data,
};
use crate::text::{concat, contains_str, is_substring};
use std::path::PathBuf;
use crate::ordered_map::{has_key, lookup, with_entry, without_key, Headers};
use crate::serializable::{RequestView, ResponseView, SerializableRequest, SerializableResponse};
use crate::text::{
    contains_char, lower_case, lowercase, opt_view, replace_text, replaced_text, starts_with,
};
use crate::url_filter::{url_filtered, UrlFilter};
use vstd::prelude::*;
use vstd::string::*;

verus! {

/// Runs a chain of filters over every interaction of a cassette.
pub fn filter_cassette_file<T: Filter + ?Sized>(cassette: &mut Cassette, filter_chain: &FilterChain<T>)
    ensures
        refiltered(filter_chain@, old(cassette)@, final(cassette)@),
        final(cassette).path == old(cassette).path,
        final(cassette).format == old(cassette).format,
        final(cassette).modified_since_load == old(cassette).modified_since_load,
{
    filter_interactions(&mut cassette.interactions, filter_chain);
}

/// Whether `after` is `before` with `mutator` applied to every request and
/// the responses as they were.
pub open spec fn requests_mutated<F: Fn(SerializableRequest) -> SerializableRequest>(
    mutator: F,
    before: Seq<Interaction>,
    after: Seq<Interaction>,
) -> bool {
    &&& after.len() == before.len()
    &&& forall|k: int|
        0 <= k < before.len() ==> (#[trigger] after[k]).response@ == before[k].response@ && exists|
            input: SerializableRequest,
        |
            input@ == before[k].request@ && #[trigger] mutator.ensures((input,), after[k].request)
}

/// Whether `after` is `before` with `mutator` applied to every response and
/// the requests as they were.
pub open spec fn responses_mutated<F: Fn(SerializableResponse) -> SerializableResponse>(
    mutator: F,
    before: Seq<Interaction>,
    after: Seq<Interaction>,
) -> bool {
    &&& after.len() == before.len()
    &&& forall|k: int|
        0 <= k < before.len() ==> (#[trigger] after[k]).request@ == before[k].request@ && exists|
            input: SerializableResponse,
        |
            input@ == before[k].response@ && #[trigger] mutator.ensures((input,), after[k].response)
}

/// Applies a function to every request of a cassette.
pub fn mutate_all_requests<F: Fn(SerializableRequest) -> SerializableRequest>(
    cassette: &mut Cassette,
    mutator: F,
)
    requires
        forall|r: SerializableRequest| #[trigger] mutator.requires((r,)),
    ensures
        requests_mutated(mutator, old(cassette).interactions@, final(cassette).interactions@),
        final(cassette).path == old(cassette).path,
        final(cassette).format == old(cassette).format,
        final(cassette).modified_since_load == old(cassette).modified_since_load,
{
    let mut out: Vec<Interaction> = Vec::new();
    let mut i: usize = 0;
    while i < cassette.interactions.len()
        invariant
            i <= cassette.interactions.len(),
            out.len() == i,
            *cassette == *old(cassette),
            forall|r: SerializableRequest| #[trigger] mutator.requires((r,)),
            forall|k: int|
                0 <= k < i ==> (#[trigger] out@[k]).response@ == cassette.interactions@[k].response@
                    && exists|input: SerializableRequest|
                    input@ == cassette.interactions@[k].request@ && #[trigger] mutator.ensures(
                        (input,),
                        out@[k].request,
                    ),
        decreases cassette.interactions.len() - i,
    {
        let input = cassette.interactions[i].request.clone();
        let request = mutator(input);
        let response = cassette.interactions[i].response.clone();
        assert(mutator.ensures((input,), request));
        out.push(Interaction { request, response });
        i += 1;
    }
    cassette.interactions = out;
}

/// Applies a function to every response of a cassette.
pub fn mutate_all_responses<F: Fn(SerializableResponse) -> SerializableResponse>(
    cassette: &mut Cassette,
    mutator: F,
)
    requires
        forall|r: SerializableResponse| #[trigger] mutator.requires((r,)),
    ensures
        responses_mutated(mutator, old(cassette).interactions@, final(cassette).interactions@),
        final(cassette).path == old(cassette).path,
        final(cassette).format == old(cassette).format,
        final(cassette).modified_since_load == old(cassette).modified_since_load,
{
    let mut out: Vec<Interaction> = Vec::new();
    let mut i: usize = 0;
    while i < cassette.interactions.len()
        invariant
            i <= cassette.interactions.len(),
            out.len() == i,
            *cassette == *old(cassette),
            forall|r: SerializableResponse| #[trigger] mutator.requires((r,)),
            forall|k: int|
                0 <= k < i ==> (#[trigger] out@[k]).request@ == cassette.interactions@[k].request@
                    && exists|input: SerializableResponse|
                    input@ == cassette.interactions@[k].response@ && #[trigger] mutator.ensures(
                        (input,),
                        out@[k].response,
                    ),
        decreases cassette.interactions.len() - i,
    {
        let input = cassette.interactions[i].response.clone();
        let response = mutator(input);
        let request = cassette.interactions[i].request.clone();
        assert(mutator.ensures((input,), response));
        out.push(Interaction { request, response });
        i += 1;
    }
    cassette.interactions = out;
}

/// Whether `after` is `before` with one function applied to every request
/// and another to every response.
pub open spec fn interactions_mutated<
    RF: Fn(SerializableRequest) -> SerializableRequest,
    ResF: Fn(SerializableResponse) -> SerializableResponse,
>(request_mutator: RF, response_mutator: ResF, before: Seq<Interaction>, after: Seq<Interaction>) -> bool {
    &&& after.len() == before.len()
    &&& forall|k: int|
        0 <= k < before.len() ==> (exists|input: SerializableRequest|
            input@ == before[k].request@ && #[trigger] request_mutator.ensures(
                (input,),
                (#[trigger] after[k]).request,
            )) && (exists|input: SerializableResponse|
            input@ == before[k].response@ && #[trigger] response_mutator.ensures(
                (input,),
                after[k].response,
            ))
}

/// Applies one function to every request of a cassette and another to
/// every response.
pub fn mutate_all_interactions<
    RF: Fn(SerializableRequest) -> SerializableRequest,
    ResF: Fn(SerializableResponse) -> SerializableResponse,
>(cassette: &mut Cassette, request_mutator: RF, response_mutator: ResF)
    requires
        forall|r: SerializableRequest| #[trigger] request_mutator.requires((r,)),
        forall|r: SerializableResponse| #[trigger] response_mutator.requires((r,)),
    ensures
        interactions_mutated(
            request_mutator,
            response_mutator,
            old(cassette).interactions@,
            final(cassette).interactions@,
        ),
        final(cassette).path == old(cassette).path,
        final(cassette).format == old(cassette).format,
        final(cassette).modified_since_load == old(cassette).modified_since_load,
{
    let mut out: Vec<Interaction> = Vec::new();
    let mut i: usize = 0;
    while i < cassette.interactions.len()
        invariant
            i <= cassette.interactions.len(),
            out.len() == i,
            *cassette == *old(cassette),
            forall|r: SerializableRequest| #[trigger] request_mutator.requires((r,)),
            forall|r: SerializableResponse| #[trigger] response_mutator.requires((r,)),
            forall|k: int|
                0 <= k < i ==> (exists|input: SerializableRequest|
                    input@ == cassette.interactions@[k].request@
                        && #[trigger] request_mutator.ensures(
                        (input,),
                        (#[trigger] out@[k]).request,
                    )) && (exists|input: SerializableResponse|
                    input@ == cassette.interactions@[k].response@
                        && #[trigger] response_mutator.ensures((input,), out@[k].response)),
        decreases cassette.interactions.len() - i,
    {
        let request_input = cassette.interactions[i].request.clone();
        let request = request_mutator(request_input);
        let response_input = cassette.interactions[i].response.clone();
        let response = response_mutator(response_input);
        assert(request_mutator.ensures((request_input,), request));
        assert(response_mutator.ensures((response_input,), response));
        out.push(Interaction { request, response });
        i += 1;
    }
    cassette.interactions = out;
}

/// Whether a body looks like form data: it holds `=`, and it holds `&` or
/// no blank.
pub open spec fn is_form_like(body: Seq<char>) -> bool {
    body.contains('=') && (body.contains('&') || !body.contains(' '))
}

/// Whether a body looks like form data.
pub fn looks_like_form(body: &str) -> (r: bool)
    ensures
        r == is_form_like(body@),
{
    contains_char(body, '=') && (contains_char(body, '&') || !contains_char(body, ' '))
}

/// A request whose body, where it looks like form data, has its
/// credentials replaced by a mask that begins with `replacement`.
pub open spec fn credentials_masked(r: RequestView, replacement: Seq<char>) -> RequestView {
    match r.body {
        Some(body) => if is_form_like(body) {
            RequestView { body: Some(form_filtered(body, replacement)), ..r }
        } else {
            r
        },
        None => r,
    }
}

/// Masks the credentials in the form data of a request.
pub fn mask_credentials(request: SerializableRequest, replacement: &str) -> (out:
    SerializableRequest)
    ensures
        out@ == credentials_masked(request@, replacement@),
{
    let mut request = request;
    let filtered = match &request.body {
        Some(body) => if looks_like_form(body.as_str()) {
            Some(filter_form_data(body.as_str(), replacement))
        } else {
            None
        },
        None => None,
    };
    match filtered {
        Some(text) => {
            request.body = Some(text);
        },
        None => {},
    }
    request
}

/// Whether every request of `after` is the request of `before` rewritten by
/// `rewrite`, and every response is as it was.
pub open spec fn requests_rewritten(
    rewrite: spec_fn(RequestView) -> RequestView,
    before: Seq<InteractionView>,
    after: Seq<InteractionView>,
) -> bool {
    &&& after.len() == before.len()
    &&& forall|k: int|
        0 <= k < before.len() ==> (#[trigger] after[k]).request == rewrite(before[k].request)
            && after[k].response == before[k].response
}

/// Whether every request of `after` is the request of `before` rewritten by
/// `request_rewrite`, and every response the response rewritten by
/// `response_rewrite`.
pub open spec fn interactions_rewritten(
    request_rewrite: spec_fn(RequestView) -> RequestView,
    response_rewrite: spec_fn(ResponseView) -> ResponseView,
    before: Seq<InteractionView>,
    after: Seq<InteractionView>,
) -> bool {
    &&& after.len() == before.len()
    &&& forall|k: int|
        0 <= k < before.len() ==> (#[trigger] after[k]).request == request_rewrite(
            before[k].request,
        ) && after[k].response == response_rewrite(before[k].response)
}

/// Masks the credentials in the form data of every request.
pub fn strip_all_credentials_from_requests(cassette: &mut Cassette)
    ensures
        requests_rewritten(
            |r: RequestView| credentials_masked(r, "[REMOVED]"@),
            old(cassette)@,
            final(cassette)@,
        ),
        final(cassette).path == old(cassette).path,
        final(cassette).format == old(cassette).format,
        final(cassette).modified_since_load == old(cassette).modified_since_load,
{
    let mutator = |request: SerializableRequest| -> (out: SerializableRequest)
        ensures
            out@ == credentials_masked(request@, "[REMOVED]"@),
        { mask_credentials(request, "[REMOVED]") };
    mutate_all_requests(cassette, mutator);
    assert(requests_rewritten(
        |r: RequestView| credentials_masked(r, "[REMOVED]"@),
        old(cassette)@,
        cassette@,
    ));
}

/// A request without its cookies.
pub open spec fn request_without_cookies(r: RequestView) -> RequestView {
    RequestView { headers: without_key(without_key(r.headers, "cookie"@), "Cookie"@), ..r }
}

/// A response that sets no cookies.
pub open spec fn response_without_cookies(r: ResponseView) -> ResponseView {
    ResponseView { headers: without_key(without_key(r.headers, "set-cookie"@), "Set-Cookie"@), ..r }
}

/// Removes the cookie headers of every request and the cookie-setting
/// headers of every response.
pub fn strip_all_cookies(cassette: &mut Cassette)
    ensures
        interactions_rewritten(
            |r: RequestView| request_without_cookies(r),
            |r: ResponseView| response_without_cookies(r),
            old(cassette)@,
            final(cassette)@,
        ),
        final(cassette).path == old(cassette).path,
        final(cassette).format == old(cassette).format,
        final(cassette).modified_since_load == old(cassette).modified_since_load,
{
    let request_mutator = |request: SerializableRequest| -> (out: SerializableRequest)
        ensures
            out@ == request_without_cookies(request@),
        {
            let mut request = request;
            let _ = request.headers.remove("cookie");
            let _ = request.headers.remove("Cookie");
            request
        };
    let response_mutator = |response: SerializableResponse| -> (out: SerializableResponse)
        ensures
            out@ == response_without_cookies(response@),
        {
            let mut response = response;
            let _ = response.headers.remove("set-cookie");
            let _ = response.headers.remove("Set-Cookie");
            response
        };
    mutate_all_interactions(cassette, request_mutator, response_mutator);
    assert(interactions_rewritten(
        |r: RequestView| request_without_cookies(r),
        |r: ResponseView| response_without_cookies(r),
        old(cassette)@,
        cassette@,
    ));
}

/// A request whose body, where it looks like form data and has the field,
/// carries `value` in that field.
pub open spec fn form_field_replaced(r: RequestView, field: Seq<char>, value: Seq<char>) -> RequestView {
    match r.body {
        Some(body) => if is_form_like(body) && has_key(form_fields(body), field) {
            RequestView { body: Some(form_text(with_entry(form_fields(body), field, value))), ..r }
        } else {
            r
        },
        None => r,
    }
}

/// Sets one field of the form data of a request, where it is there.
pub fn replace_form_field(request: SerializableRequest, field: &str, value: &str) -> (out:
    SerializableRequest)
    ensures
        out@ == form_field_replaced(request@, field@, value@),
{
    let mut request = request;
    let rewritten = match &request.body {
        Some(body) => if looks_like_form(body.as_str()) {
            let mut params = parse_form_data(body.as_str());
            if params.contains_key(field) {
                params.insert(String::from_str(field), String::from_str(value));
                Some(encode_form_data(&params))
            } else {
                None
            }
        } else {
            None
        },
        None => None,
    };
    match rewritten {
        Some(text) => {
            request.body = Some(text);
        },
        None => {},
    }
    request
}

/// Sets one field in the form data of every request that has it.
pub fn replace_form_field_in_all_requests(
    cassette: &mut Cassette,
    field_name: &str,
    replacement_value: &str,
)
    ensures
        requests_rewritten(
            |r: RequestView| form_field_replaced(r, field_name@, replacement_value@),
            old(cassette)@,
            final(cassette)@,
        ),
        final(cassette).path == old(cassette).path,
        final(cassette).format == old(cassette).format,
        final(cassette).modified_since_load == old(cassette).modified_since_load,
{
    let mutator = |request: SerializableRequest| -> (out: SerializableRequest)
        ensures
            out@ == form_field_replaced(request@, field_name@, replacement_value@),
        { replace_form_field(request, field_name, replacement_value) };
    mutate_all_requests(cassette, mutator);
    assert(requests_rewritten(
        |r: RequestView| form_field_replaced(r, field_name@, replacement_value@),
        old(cassette)@,
        cassette@,
    ));
}

/// A request without the header `name`, as given and in lower case.
pub open spec fn header_removed(r: RequestView, name: Seq<char>) -> RequestView {
    RequestView { headers: without_key(without_key(r.headers, name), lower_case(name)), ..r }
}

/// Removes a header from every request, under its name as given and in
/// lower case.
pub fn remove_header_from_all_requests(cassette: &mut Cassette, header_name: &str)
    ensures
        requests_rewritten(
            |r: RequestView| header_removed(r, header_name@),
            old(cassette)@,
            final(cassette)@,
        ),
        final(cassette).path == old(cassette).path,
        final(cassette).format == old(cassette).format,
        final(cassette).modified_since_load == old(cassette).modified_since_load,
{
    let lower = lowercase(header_name);
    let mutator = |request: SerializableRequest| -> (out: SerializableRequest)
        ensures
            out@ == header_removed(request@, header_name@),
        {
            let mut request = request;
            let _ = request.headers.remove(header_name);
            let _ = request.headers.remove(lower.as_str());
            request
        };
    mutate_all_requests(cassette, mutator);
    assert(requests_rewritten(
        |r: RequestView| header_removed(r, header_name@),
        old(cassette)@,
        cassette@,
    ));
}

/// A header map in which `name`, where it is present, has `value` as its
/// only value.
pub open spec fn header_set(
    headers: Seq<(Seq<char>, Seq<Seq<char>>)>,
    name: Seq<char>,
    value: Seq<char>,
) -> Seq<(Seq<char>, Seq<Seq<char>>)> {
    if has_key(headers, name) {
        with_entry(headers, name, seq![value])
    } else {
        headers
    }
}

/// A request in which the header `name`, as given and in lower case, has
/// `value` as its only value where it is present.
pub open spec fn header_replaced(r: RequestView, name: Seq<char>, value: Seq<char>) -> RequestView {
    RequestView {
        headers: header_set(header_set(r.headers, name, value), lower_case(name), value),
        ..r
    }
}

/// Gives a header one value where the header is present.
fn set_header(headers: &mut Headers, name: &str, value: &str)
    ensures
        final(headers)@ == header_set(old(headers)@, name@, value@),
{
    if headers.contains_key(name) {
        let mut values: Vec<String> = Vec::new();
        values.push(String::from_str(value));
        assert(values.deep_view() =~= seq![value@]);
        headers.insert(String::from_str(name), values);
    }
}

/// Replaces the value of a header in every request that has it, under its
/// name as given and in lower case.
pub fn replace_header_in_all_requests(
    cassette: &mut Cassette,
    header_name: &str,
    replacement_value: &str,
)
    ensures
        requests_rewritten(
            |r: RequestView| header_replaced(r, header_name@, replacement_value@),
            old(cassette)@,
            final(cassette)@,
        ),
        final(cassette).path == old(cassette).path,
        final(cassette).format == old(cassette).format,
        final(cassette).modified_since_load == old(cassette).modified_since_load,
{
    let lower = lowercase(header_name);
    let mutator = |request: SerializableRequest| -> (out: SerializableRequest)
        ensures
            out@ == header_replaced(request@, header_name@, replacement_value@),
        {
            let mut request = request;
            set_header(&mut request.headers, header_name, replacement_value);
            set_header(&mut request.headers, lower.as_str(), replacement_value);
            request
        };
    mutate_all_requests(cassette, mutator);
    assert(requests_rewritten(
        |r: RequestView| header_replaced(r, header_name@, replacement_value@),
        old(cassette)@,
        cassette@,
    ));
}

/// Whether `after` is `before` with the URL of every request rewritten by
/// `url_mutator`.
pub open spec fn urls_scrubbed<F: Fn(&str) -> String>(
    url_mutator: F,
    before: Seq<InteractionView>,
    after: Seq<InteractionView>,
) -> bool {
    &&& after.len() == before.len()
    &&& forall|k: int|
        0 <= k < before.len() ==> (#[trigger] after[k]).response == before[k].response && exists|
            input: &str,
            output: String,
        |
            input@ == before[k].request.url && #[trigger] url_mutator.ensures((input,), output)
                && after[k].request == (RequestView { url: output@, ..before[k].request })
}

/// Rewrites the URL of every request by a function of the caller.
pub fn scrub_urls_in_all_requests<F: Fn(&str) -> String>(cassette: &mut Cassette, url_mutator: F)
    requires
        forall|url: &str| #[trigger] url_mutator.requires((url,)),
    ensures
        urls_scrubbed(url_mutator, old(cassette)@, final(cassette)@),
        final(cassette).path == old(cassette).path,
        final(cassette).format == old(cassette).format,
        final(cassette).modified_since_load == old(cassette).modified_since_load,
{
    let mut out: Vec<Interaction> = Vec::new();
    let mut i: usize = 0;
    while i < cassette.interactions.len()
        invariant
            i <= cassette.interactions.len(),
            out.len() == i,
            *cassette == *old(cassette),
            forall|url: &str| #[trigger] url_mutator.requires((url,)),
            urls_scrubbed(url_mutator, cassette@.take(i as int), interactions_view(out@)),
        decreases cassette.interactions.len() - i,
    {
        let mut interaction = cassette.interactions[i].clone();
        let ghost before = interaction@;
        let input = interaction.request.url.as_str();
        let output = url_mutator(input);
        assert(url_mutator.ensures((input,), output));
        let ghost url = output@;
        interaction.request.url = output;
        assert(interaction@.request == (RequestView { url, ..before.request }));
        let ghost earlier = interactions_view(out@);
        out.push(interaction);
        assert(before == cassette@[i as int]);
        assert forall|k: int| 0 <= k < i + 1 implies (#[trigger] interactions_view(out@)[k]).response
            == cassette@.take(i + 1)[k].response && exists|input: &str, output: String|
            input@ == cassette@.take(i + 1)[k].request.url && #[trigger] url_mutator.ensures(
                (input,),
                output,
            ) && interactions_view(out@)[k].request == (RequestView {
                url: output@,
                ..cassette@.take(i + 1)[k].request
            }) by {
            if k < i {
                assert(cassette@.take(i as int)[k] == cassette@.take(i + 1)[k]);
                assert(earlier[k] == interactions_view(out@)[k]);
            }
        }
        i += 1;
    }
    assert(cassette@.take(cassette@.len() as int) =~= cassette@);
    cassette.interactions = out;
}

/// The form fields in which a user name is commonly kept.
pub open spec fn username_fields() -> Seq<Seq<char>> {
    seq!["username"@, "user"@, "username_or_email"@, "email"@, "login"@]
}

/// `fields` with `value` in each of the first `n` of `names` that is there.
pub open spec fn fields_set(
    fields: Seq<(Seq<char>, Seq<char>)>,
    names: Seq<Seq<char>>,
    n: nat,
    value: Seq<char>,
) -> Seq<(Seq<char>, Seq<char>)>
    decreases n,
{
    if n == 0 || n > names.len() {
        fields
    } else {
        let prev = fields_set(fields, names, (n - 1) as nat, value);
        if has_key(prev, names[n - 1]) {
            with_entry(prev, names[n - 1], value)
        } else {
            prev
        }
    }
}

/// The values of an authorization header with every Basic credential
/// masked.
pub open spec fn basic_auth_masked(values: Seq<Seq<char>>) -> Seq<Seq<char>> {
    Seq::new(
        values.len(),
        |i: int|
            if "Basic "@.is_prefix_of(values[i]) {
                "[FILTERED_BASIC_AUTH]"@
            } else {
                values[i]
            },
    )
}

/// A request with the user name replaced: in its form data, which is
/// written anew, and in the Basic credentials of its `authorization`
/// header, which are masked.
pub open spec fn username_replaced(r: RequestView, value: Seq<char>) -> RequestView {
    RequestView {
        body: match r.body {
            Some(body) => if is_form_like(body) {
                Some(form_text(fields_set(form_fields(body), username_fields(), 5, value)))
            } else {
                r.body
            },
            None => r.body,
        },
        headers: match lookup(r.headers, "authorization"@) {
            Some(values) => with_entry(r.headers, "authorization"@, basic_auth_masked(values)),
            None => r.headers,
        },
        ..r
    }
}

/// The user name fields, as strings.
fn username_field_list() -> (v: Vec<String>)
    ensures
        v.deep_view() == username_fields(),
{
    let mut v: Vec<String> = Vec::new();
    v.push(String::from_str("username"));
    v.push(String::from_str("user"));
    v.push(String::from_str("username_or_email"));
    v.push(String::from_str("email"));
    v.push(String::from_str("login"));
    assert(v.deep_view() =~= username_fields());
    v
}

/// Replaces the user name of a request.
pub fn replace_username(request: SerializableRequest, new_username: &str) -> (out:
    SerializableRequest)
    ensures
        out@ == username_replaced(request@, new_username@),
{
    let mut request = request;
    let rewritten = match &request.body {
        Some(body) => if looks_like_form(body.as_str()) {
            let mut params = parse_form_data(body.as_str());
            let ghost fields = params@;
            let names = username_field_list();
            let mut i: usize = 0;
            while i < names.len()
                invariant
                    i <= names.len(),
                    names.deep_view() == username_fields(),
                    params@ == fields_set(fields, username_fields(), i as nat, new_username@),
                decreases names.len() - i,
            {
                assert(names.deep_view()[i as int] == names@[i as int]@);
                if params.contains_key(names[i].as_str()) {
                    params.insert(names[i].clone(), String::from_str(new_username));
                }
                i += 1;
            }
            Some(encode_form_data(&params))
        } else {
            None
        },
        None => None,
    };
    match rewritten {
        Some(text) => {
            request.body = Some(text);
        },
        None => {},
    }
    let masked = match request.headers.get("authorization") {
        Some(values) => {
            let mut masked: Vec<String> = Vec::new();
            let mut i: usize = 0;
            while i < values.len()
                invariant
                    i <= values.len(),
                    masked.len() == i,
                    forall|k: int|
                        0 <= k < i ==> (#[trigger] masked@[k])@ == basic_auth_masked(
                            values.deep_view(),
                        )[k],
                decreases values.len() - i,
            {
                assert(values.deep_view()[i as int] == values@[i as int]@);
                if starts_with(values[i].as_str(), "Basic ") {
                    masked.push(String::from_str("[FILTERED_BASIC_AUTH]"));
                } else {
                    masked.push(values[i].clone());
                }
                i += 1;
            }
            assert(masked.deep_view() =~= basic_auth_masked(values.deep_view()));
            Some(masked)
        },
        None => None,
    };
    match masked {
        Some(values) => {
            request.headers.insert(String::from_str("authorization"), values);
        },
        None => {},
    }
    request
}

/// Replaces the user name in every request.
pub fn replace_username_in_all_requests(cassette: &mut Cassette, new_username: &str)
    ensures
        requests_rewritten(
            |r: RequestView| username_replaced(r, new_username@),
            old(cassette)@,
            final(cassette)@,
        ),
        final(cassette).path == old(cassette).path,
        final(cassette).format == old(cassette).format,
        final(cassette).modified_since_load == old(cassette).modified_since_load,
{
    let mutator = |request: SerializableRequest| -> (out: SerializableRequest)
        ensures
            out@ == username_replaced(request@, new_username@),
        { replace_username(request, new_username) };
    mutate_all_requests(cassette, mutator);
    assert(requests_rewritten(
        |r: RequestView| username_replaced(r, new_username@),
        old(cassette)@,
        cassette@,
    ));
}

/// Sets the password in the form data of every request that has one.
pub fn set_test_password_in_cassette(cassette: &mut Cassette, test_password: &str)
    ensures
        requests_rewritten(
            |r: RequestView| form_field_replaced(r, "password"@, test_password@),
            old(cassette)@,
            final(cassette)@,
        ),
        final(cassette).path == old(cassette).path,
        final(cassette).format == old(cassette).format,
        final(cassette).modified_since_load == old(cassette).modified_since_load,
{
    replace_form_field_in_all_requests(cassette, "password", test_password);
}

/// The query parameters that a sanitized URL does not keep.
pub open spec fn sensitive_params() -> Seq<Seq<char>> {
    seq!["api_key"@, "access_token"@, "key"@]
}

/// A request made fit for sharing: no authorization header, credentials in
/// form data masked, sensitive query parameters gone.
pub open spec fn request_sanitized(r: RequestView) -> RequestView {
    RequestView {
        headers: without_key(without_key(r.headers, "authorization"@), "Authorization"@),
        body: credentials_masked(r, "[SANITIZED]"@).body,
        url: url_filtered(r.url, sensitive_params(), Seq::empty()),
        ..r
    }
}

/// The text that a sanitized response body is searched for.
pub open spec fn session_pattern() -> Seq<char> {
    "\"sessionid\":\"[^\"]*\""@
}

/// The text that takes its place.
pub open spec fn session_replacement() -> Seq<char> {
    "\"sessionid\":\"[SANITIZED]\""@
}

/// A response made fit for sharing.
pub open spec fn response_sanitized(r: ResponseView) -> ResponseView {
    ResponseView {
        body: match r.body {
            Some(body) => Some(replaced_text(body, session_pattern(), session_replacement())),
            None => None,
        },
        ..r
    }
}

/// Makes a request fit for sharing.
pub fn sanitize_request(request: SerializableRequest) -> (out: SerializableRequest)
    ensures
        out@ == request_sanitized(request@),
{
    let mut request = request;
    let _ = request.headers.remove("authorization");
    let _ = request.headers.remove("Authorization");
    let mut request = mask_credentials(request, "[SANITIZED]");
    let filter = UrlFilter::new().remove_query_param("api_key").remove_query_param(
        "access_token",
    ).remove_query_param("key");
    assert(filter.removed() =~= sensitive_params());
    assert(filter.replaced() =~= Seq::empty());
    request.url = filter.filter_url(request.url.as_str());
    request
}

/// Makes a response fit for sharing.
pub fn sanitize_response(response: SerializableResponse) -> (out: SerializableResponse)
    ensures
        out@ == response_sanitized(response@),
{
    let mut response = response;
    proof {
        reveal_strlit("\"sessionid\":\"[^\"]*\"");
    }
    let rewritten = match &response.body {
        Some(body) => Some(
            replace_text(
                body.as_str(),
                "\"sessionid\":\"[^\"]*\"",
                "\"sessionid\":\"[SANITIZED]\"",
            ),
        ),
        None => None,
    };
    match rewritten {
        Some(text) => {
            response.body = Some(text);
        },
        None => {},
    }
    response
}

/// Makes every interaction of a cassette fit for sharing.
pub fn sanitize_cassette_for_sharing(cassette: &mut Cassette)
    ensures
        interactions_rewritten(
            |r: RequestView| request_sanitized(r),
            |r: ResponseView| response_sanitized(r),
            old(cassette)@,
            final(cassette)@,
        ),
        final(cassette).path == old(cassette).path,
        final(cassette).format == old(cassette).format,
        final(cassette).modified_since_load == old(cassette).modified_since_load,
{
    let request_mutator = |request: SerializableRequest| -> (out: SerializableRequest)
        ensures
            out@ == request_sanitized(request@),
        { sanitize_request(request) };
    let response_mutator = |response: SerializableResponse| -> (out: SerializableResponse)
        ensures
            out@ == response_sanitized(response@),
        { sanitize_response(response) };
    mutate_all_interactions(cassette, request_mutator, response_mutator);
    assert(interactions_rewritten(
        |r: RequestView| request_sanitized(r),
        |r: ResponseView| response_sanitized(r),
        old(cassette)@,
        cassette@,
    ));
}

/// What was found in a cassette: the requests whose form data holds
/// credentials, with the credentials, and the headers that carry secrets.
#[derive(Debug)]
pub struct CassetteAnalysis {
    pub file_path: PathBuf,
    pub total_interactions: usize,
    pub requests_with_form_data: Vec<usize>,
    pub requests_with_credentials: Vec<(usize, Vec<(String, String)>)>,
    pub sensitive_headers: Vec<(usize, String, Vec<String>)>,
}

/// The credentials in the form data of a request; none where the body does
/// not look like form data.
pub open spec fn request_credentials(r: RequestView) -> Seq<(Seq<char>, Seq<char>)> {
    match r.body {
        Some(body) => if is_form_like(body) {
            credentials_among(form_fields(body), form_fields(body).len())
        } else {
            Seq::empty()
        },
        None => Seq::empty(),
    }
}

/// The requests among the first `n` whose form data holds credentials, by
/// position, with the credentials.
pub open spec fn credential_findings(recorded: Seq<InteractionView>, n: nat) -> Seq<
    (usize, Seq<(Seq<char>, Seq<char>)>),
>
    decreases n,
{
    if n == 0 || n > recorded.len() {
        Seq::empty()
    } else {
        let prev = credential_findings(recorded, (n - 1) as nat);
        let found = request_credentials(recorded[n - 1].request);
        if found.len() > 0 {
            prev.push(((n - 1) as usize, found))
        } else {
            prev
        }
    }
}

/// Whether the name of a request header points to a secret.
pub open spec fn is_sensitive_request_header(name: Seq<char>) -> bool {
    is_substring("cookie"@, lower_case(name)) || is_substring("authorization"@, lower_case(name))
        || is_substring("token"@, lower_case(name))
}

/// Whether the name of a response header points to a secret.
pub open spec fn is_sensitive_response_header(name: Seq<char>) -> bool {
    is_substring("set-cookie"@, lower_case(name)) || is_substring(
        "authorization"@,
        lower_case(name),
    ) || is_substring("token"@, lower_case(name))
}

/// The sensitive ones among the first `n` headers of the interaction at
/// `at`: those of a request under their names, those of a response under
/// `response-` and their names.
pub open spec fn header_findings(
    headers: Seq<(Seq<char>, Seq<Seq<char>>)>,
    n: nat,
    at: usize,
    of_response: bool,
) -> Seq<(usize, Seq<char>, Seq<Seq<char>>)>
    decreases n,
{
    if n == 0 || n > headers.len() {
        Seq::empty()
    } else {
        let prev = header_findings(headers, (n - 1) as nat, at, of_response);
        let header = headers[n - 1];
        if of_response {
            if is_sensitive_response_header(header.0) {
                prev.push((at, "response-"@ + header.0, header.1))
            } else {
                prev
            }
        } else {
            if is_sensitive_request_header(header.0) {
                prev.push((at, header.0, header.1))
            } else {
                prev
            }
        }
    }
}

/// The sensitive headers of the first `n` interactions: for each in turn
/// those of the request, then those of the response.
pub open spec fn sensitive_findings(recorded: Seq<InteractionView>, n: nat) -> Seq<
    (usize, Seq<char>, Seq<Seq<char>>),
>
    decreases n,
{
    if n == 0 || n > recorded.len() {
        Seq::empty()
    } else {
        sensitive_findings(recorded, (n - 1) as nat) + header_findings(
            recorded[n - 1].request.headers,
            recorded[n - 1].request.headers.len(),
            (n - 1) as usize,
            false,
        ) + header_findings(
            recorded[n - 1].response.headers,
            recorded[n - 1].response.headers.len(),
            (n - 1) as usize,
            true,
        )
    }
}

/// The positions in a list of credential findings.
pub open spec fn finding_positions(findings: Seq<(usize, Seq<(Seq<char>, Seq<char>)>)>) -> Seq<
    usize,
> {
    Seq::new(findings.len(), |i: int| findings[i].0)
}

/// Adds the sensitive headers of one header map to `found`.
fn collect_headers(
    headers: &Headers,
    at: usize,
    of_response: bool,
    found: &mut Vec<(usize, String, Vec<String>)>,
)
    ensures
        final(found).deep_view() == old(found).deep_view() + header_findings(
            headers@,
            headers@.len(),
            at,
            of_response,
        ),
{
    let ghost before = found.deep_view();
    let mut i: usize = 0;
    assert(found.deep_view() =~= before + header_findings(headers@, 0, at, of_response));
    while i < headers.len()
        invariant
            i <= headers@.len(),
            found.deep_view() == before + header_findings(headers@, i as nat, at, of_response),
        decreases headers@.len() - i,
    {
        let name = headers.key_at(i);
        let values = headers.value_at(i);
        let lower = lowercase(name.as_str());
        let ghost so_far = found.deep_view();
        if of_response {
            if contains_str(lower.as_str(), "set-cookie") || contains_str(
                lower.as_str(),
                "authorization",
            ) || contains_str(lower.as_str(), "token") {
                let label = concat("response-", name.as_str());
                found.push((at, label, crate::text::clone_strings(values)));
                assert(found.deep_view() =~= so_far.push((at, label@, values.deep_view())));
            }
        } else {
            if contains_str(lower.as_str(), "cookie") || contains_str(
                lower.as_str(),
                "authorization",
            ) || contains_str(lower.as_str(), "token") {
                found.push((at, name.clone(), crate::text::clone_strings(values)));
                assert(found.deep_view() =~= so_far.push((at, name@, values.deep_view())));
            }
        }
        assert(found.deep_view() =~= before + header_findings(
            headers@,
            (i + 1) as nat,
            at,
            of_response,
        ));
        i += 1;
    }
}

/// Looks through a cassette for credentials in form data and for headers
/// that carry secrets; the cassette stays as it is.
pub fn analyze_cassette_file(cassette: &Cassette, file_path: PathBuf) -> (analysis: CassetteAnalysis)
    ensures
        analysis.file_path == file_path,
        analysis.total_interactions == cassette@.len(),
        analysis.requests_with_credentials.deep_view() == credential_findings(
            cassette@,
            cassette@.len(),
        ),
        analysis.requests_with_form_data@ == finding_positions(
            credential_findings(cassette@, cassette@.len()),
        ),
        analysis.sensitive_headers.deep_view() == sensitive_findings(cassette@, cassette@.len()),
{
    let mut with_form_data: Vec<usize> = Vec::new();
    let mut with_credentials: Vec<(usize, Vec<(String, String)>)> = Vec::new();
    let mut sensitive: Vec<(usize, String, Vec<String>)> = Vec::new();
    let mut i: usize = 0;
    assert(with_credentials.deep_view() =~= credential_findings(cassette@, 0));
    assert(with_form_data@ =~= finding_positions(credential_findings(cassette@, 0)));
    assert(sensitive.deep_view() =~= sensitive_findings(cassette@, 0));
    while i < cassette.interactions.len()
        invariant
            i <= cassette.interactions.len(),
            with_credentials.deep_view() == credential_findings(cassette@, i as nat),
            with_form_data@ == finding_positions(credential_findings(cassette@, i as nat)),
            sensitive.deep_view() == sensitive_findings(cassette@, i as nat),
        decreases cassette.interactions.len() - i,
    {
        let interaction = &cassette.interactions[i];
        assert(cassette@[i as int] == interaction@);
        let ghost found_before = with_credentials.deep_view();
        let ghost positions_before = with_form_data@;
        match &interaction.request.body {
            Some(body) => {
                if looks_like_form(body.as_str()) {
                    let form_analysis = analyze_form_data(body.as_str());
                    if form_analysis.credential_fields.len() > 0 {
                        let ghost found = crate::form_data::fields_view(
                            form_analysis.credential_fields@,
                        );
                        assert(form_analysis.credential_fields.deep_view() =~= found);
                        with_form_data.push(i);
                        with_credentials.push((i, form_analysis.credential_fields));
                        assert(with_credentials.deep_view() =~= found_before.push((i, found)));
                        assert(with_form_data@ =~= finding_positions(
                            found_before.push((i, found)),
                        ));
                    }
                }
            },
            None => {},
        }
        collect_headers(&interaction.request.headers, i, false, &mut sensitive);
        collect_headers(&interaction.response.headers, i, true, &mut sensitive);
        i += 1;
    }
    CassetteAnalysis {
        file_path,
        total_interactions: cassette.interactions.len(),
        requests_with_form_data: with_form_data,
        requests_with_credentials: with_credentials,
        sensitive_headers: sensitive,
    }
}

/// The form fields in which a user name is looked for, in order.
pub open spec fn username_sources() -> Seq<Seq<char>> {
    seq!["username"@, "username_or_email"@, "user"@, "email"@]
}

/// Whether a value has been put in place of a user name by a filter.
pub open spec fn is_masked_value(value: Seq<char>) -> bool {
    "[FILTERED"@.is_prefix_of(value) || "[SANITIZED"@.is_prefix_of(value)
}

/// The user name in form fields: the value of the first of `names`, from
/// position `k` on, that is there and has not been masked.
pub open spec fn username_in(
    fields: Seq<(Seq<char>, Seq<char>)>,
    names: Seq<Seq<char>>,
    k: int,
) -> Option<Seq<char>>
    decreases names.len() - k,
{
    if k < 0 || k >= names.len() {
        None
    } else {
        match lookup(fields, names[k]) {
            Some(value) => if !is_masked_value(value) {
                Some(value)
            } else {
                username_in(fields, names, k + 1)
            },
            None => username_in(fields, names, k + 1),
        }
    }
}

/// The user name in a request: that of its form data, where the body looks
/// like form data.
pub open spec fn request_username(r: RequestView) -> Option<Seq<char>> {
    match r.body {
        Some(body) => if is_form_like(body) {
            username_in(form_fields(body), username_sources(), 0)
        } else {
            None
        },
        None => None,
    }
}

/// The user name of the first request, from position `i` on, that has one.
pub open spec fn username_from(recorded: Seq<InteractionView>, i: int) -> Option<Seq<char>>
    decreases recorded.len() - i,
{
    if i < 0 || i >= recorded.len() {
        None
    } else {
        match request_username(recorded[i].request) {
            Some(name) => Some(name),
            None => username_from(recorded, i + 1),
        }
    }
}

/// The user name sources, as strings.
fn username_source_list() -> (v: Vec<String>)
    ensures
        v.deep_view() == username_sources(),
{
    let mut v: Vec<String> = Vec::new();
    v.push(String::from_str("username"));
    v.push(String::from_str("username_or_email"));
    v.push(String::from_str("user"));
    v.push(String::from_str("email"));
    assert(v.deep_view() =~= username_sources());
    v
}

/// The first user name found in the form data of the requests.
pub fn extract_username_from_cassette(cassette: &Cassette) -> (name: Option<String>)
    ensures
        opt_view(name) == username_from(cassette@, 0),
{
    let names = username_source_list();
    let mut i: usize = 0;
    while i < cassette.interactions.len()
        invariant
            i <= cassette.interactions.len(),
            names.deep_view() == username_sources(),
            username_from(cassette@, 0) == username_from(cassette@, i as int),
        decreases cassette.interactions.len() - i,
    {
        let interaction = &cassette.interactions[i];
        assert(cassette@[i as int] == interaction@);
        match &interaction.request.body {
            Some(body) => {
                if looks_like_form(body.as_str()) {
                    let params = parse_form_data(body.as_str());
                    let mut k: usize = 0;
                    while k < names.len()
                        invariant
                            k <= names.len(),
                            i < cassette.interactions.len(),
                            names.deep_view() == username_sources(),
                            params@ == form_fields(body@),
                            is_form_like(body@),
                            cassette@[i as int].request.body == Some(body@),
                            username_from(cassette@, 0) == username_from(cassette@, i as int),
                            username_in(params@, username_sources(), 0) == username_in(
                                params@,
                                username_sources(),
                                k as int,
                            ),
                        decreases names.len() - k,
                    {
                        assert(names.deep_view()[k as int] == names@[k as int]@);
                        match params.get(names[k].as_str()) {
                            Some(username) => {
                                if !starts_with(username.as_str(), "[FILTERED") && !starts_with(
                                    username.as_str(),
                                    "[SANITIZED",
                                ) {
                                    return Some(username.clone());
                                }
                            },
                            None => {},
                        }
                        k += 1;
                    }
                }
            },
            None => {},
        }
        i += 1;
    }
    None
}

/// The lines that name the interactions with form data.
pub open spec fn position_lines(positions: Seq<usize>, n: nat) -> Seq<Seq<char>>
    decreases n,
{
    if n == 0 || n > positions.len() {
        Seq::empty()
    } else {
        position_lines(positions, (n - 1) as nat).push(
            "  - Interaction #"@ + crate::text::decimal(positions[n - 1] as nat),
        )
    }
}

/// The lines that show the first `n` credentials of one interaction, each
/// value cut to 20 bytes.
pub open spec fn credential_lines(credentials: Seq<(Seq<char>, Seq<char>)>, n: nat) -> Seq<
    Seq<char>,
>
    decreases n,
{
    if n == 0 || n > credentials.len() {
        Seq::empty()
    } else {
        credential_lines(credentials, (n - 1) as nat).push(
            "    * "@ + credentials[n - 1].0 + ": "@ + crate::text::preview(credentials[n - 1].1, 20),
        )
    }
}

/// The lines that show the first `n` interactions with credentials.
pub open spec fn finding_lines(
    findings: Seq<(usize, Seq<(Seq<char>, Seq<char>)>)>,
    n: nat,
) -> Seq<Seq<char>>
    decreases n,
{
    if n == 0 || n > findings.len() {
        Seq::empty()
    } else {
        let finding = findings[n - 1];
        finding_lines(findings, (n - 1) as nat).push(
            "  - Interaction #"@ + crate::text::decimal(finding.0 as nat) + ": "@
                + crate::text::decimal(finding.1.len()) + " credential fields"@,
        ) + credential_lines(finding.1, finding.1.len())
    }
}

/// The lines that show the first `n` values of a header, each cut to 50
/// bytes.
pub open spec fn value_lines(values: Seq<Seq<char>>, n: nat) -> Seq<Seq<char>>
    decreases n,
{
    if n == 0 || n > values.len() {
        Seq::empty()
    } else {
        value_lines(values, (n - 1) as nat).push("    * "@ + crate::text::preview(values[n - 1], 50))
    }
}

/// The lines that show the first `n` sensitive headers.
pub open spec fn header_lines(headers: Seq<(usize, Seq<char>, Seq<Seq<char>>)>, n: nat) -> Seq<
    Seq<char>,
>
    decreases n,
{
    if n == 0 || n > headers.len() {
        Seq::empty()
    } else {
        let header = headers[n - 1];
        header_lines(headers, (n - 1) as nat).push(
            "  - Interaction #"@ + crate::text::decimal(header.0 as nat) + ": "@ + header.1
                + " header"@,
        ) + value_lines(header.2, header.2.len())
    }
}

/// The report of an analysis, line by line: the file and the number of
/// interactions; the interactions with form data; those with credentials,
/// with the credentials; the sensitive headers, with their values; and
/// what to do about them. A part about nothing is left out.
pub open spec fn report_lines(
    file: Seq<char>,
    total: nat,
    positions: Seq<usize>,
    findings: Seq<(usize, Seq<(Seq<char>, Seq<char>)>)>,
    headers: Seq<(usize, Seq<char>, Seq<Seq<char>>)>,
) -> Seq<Seq<char>> {
    seq![
        "Cassette Analysis Report"@,
        "====================================="@,
        "File: "@ + file,
        "Total interactions: "@ + crate::text::decimal(total),
        ""@,
    ] + (if positions.len() > 0 {
        seq!["Interactions with form data: "@ + crate::text::decimal(positions.len())]
            + position_lines(positions, positions.len()) + seq![""@]
    } else {
        Seq::empty()
    }) + (if findings.len() > 0 {
        seq!["Interactions containing credentials: "@ + crate::text::decimal(findings.len())]
            + finding_lines(findings, findings.len()) + seq![""@]
    } else {
        Seq::empty()
    }) + (if headers.len() > 0 {
        seq!["Interactions with sensitive headers: "@ + crate::text::decimal(headers.len())]
            + header_lines(headers, headers.len()) + seq![""@]
    } else {
        Seq::empty()
    }) + seq!["Recommendations:"@] + (if findings.len() > 0 {
        seq!["  - Use SmartFormFilter to automatically detect and filter form credentials"@]
    } else {
        Seq::empty()
    }) + (if headers.len() > 0 {
        seq!["  - Use HeaderFilter to filter sensitive headers like cookies and tokens"@]
    } else {
        Seq::empty()
    }) + (if positions.len() == 0 && headers.len() == 0 {
        seq!["  - No obvious sensitive data detected, but consider reviewing manually"@]
    } else {
        Seq::empty()
    })
}

/// Adds one line to a list of lines.
fn push_line(lines: &mut Vec<String>, line: String)
    ensures
        final(lines).deep_view() == old(lines).deep_view().push(line@),
{
    let ghost before = lines.deep_view();
    lines.push(line);
    assert(lines.deep_view() =~= before.push(line@));
}

/// Adds one fixed line to a list of lines.
fn push_text(lines: &mut Vec<String>, line: &str)
    ensures
        final(lines).deep_view() == old(lines).deep_view().push(line@),
{
    push_line(lines, String::from_str(line));
}

impl CassetteAnalysis {
    /// The report of the analysis, line by line, for printing. `file` is
    /// the path of the cassette as it is to be shown.
    pub fn print_report(&self, file: &str) -> (lines: Vec<String>)
        ensures
            lines.deep_view() == report_lines(
                file@,
                self.total_interactions as nat,
                self.requests_with_form_data@,
                self.requests_with_credentials.deep_view(),
                self.sensitive_headers.deep_view(),
            ),
    {
        let ghost positions = self.requests_with_form_data@;
        let ghost findings = self.requests_with_credentials.deep_view();
        let ghost headers = self.sensitive_headers.deep_view();
        let mut lines: Vec<String> = Vec::new();
        assert(lines.deep_view() =~= Seq::<Seq<char>>::empty());
        push_text(&mut lines, "Cassette Analysis Report");
        push_text(&mut lines, "=====================================");
        push_line(&mut lines, concat("File: ", file));
        push_line(&mut lines, crate::text::numbered("Total interactions: ", self.total_interactions));
        push_text(&mut lines, "");
        let ghost head = lines.deep_view();
        assert(head =~~= seq![
            "Cassette Analysis Report"@,
            "====================================="@,
            "File: "@ + file@,
            "Total interactions: "@ + crate::text::decimal(self.total_interactions as nat),
            ""@,
        ]);
        if self.requests_with_form_data.len() > 0 {
            push_line(
                &mut lines,
                crate::text::numbered("Interactions with form data: ", self.requests_with_form_data.len()),
            );
            let ghost titled = lines.deep_view();
            let mut i: usize = 0;
            assert(lines.deep_view() =~= titled + position_lines(positions, 0));
            while i < self.requests_with_form_data.len()
                invariant
                    i <= self.requests_with_form_data.len(),
                    positions == self.requests_with_form_data@,
                    lines.deep_view() == titled + position_lines(positions, i as nat),
                decreases self.requests_with_form_data.len() - i,
            {
                push_line(
                    &mut lines,
                    crate::text::numbered("  - Interaction #", self.requests_with_form_data[i]),
                );
                i += 1;
                assert(lines.deep_view() =~= titled + position_lines(positions, i as nat));
            }
            push_text(&mut lines, "");
        }
        let ghost with_forms = lines.deep_view();
        assert(with_forms =~= head + (if positions.len() > 0 {
            seq!["Interactions with form data: "@ + crate::text::decimal(positions.len())]
                + position_lines(positions, positions.len()) + seq![""@]
        } else {
            Seq::empty()
        }));
        if self.requests_with_credentials.len() > 0 {
            push_line(
                &mut lines,
                crate::text::numbered("Interactions containing credentials: ", self.requests_with_credentials.len()),
            );
            let ghost titled = lines.deep_view();
            let mut i: usize = 0;
            assert(lines.deep_view() =~= titled + finding_lines(findings, 0));
            while i < self.requests_with_credentials.len()
                invariant
                    i <= self.requests_with_credentials.len(),
                    findings == self.requests_with_credentials.deep_view(),
                    lines.deep_view() == titled + finding_lines(findings, i as nat),
                decreases self.requests_with_credentials.len() - i,
            {
                let idx = self.requests_with_credentials[i].0;
                let credentials = &self.requests_with_credentials[i].1;
                assert(findings[i as int] == (idx, credentials.deep_view()));
                let mut line = crate::text::numbered("  - Interaction #", idx);
                line.append(": ");
                crate::text::push_decimal(&mut line, credentials.len());
                line.append(" credential fields");
                push_line(&mut lines, line);
                let ghost listed = lines.deep_view();
                let mut k: usize = 0;
                assert(lines.deep_view() =~= listed + credential_lines(credentials.deep_view(), 0));
                while k < credentials.len()
                    invariant
                        k <= credentials.len(),
                        lines.deep_view() == listed + credential_lines(
                            credentials.deep_view(),
                            k as nat,
                        ),
                    decreases credentials.len() - k,
                {
                    assert(credentials.deep_view()[k as int] == (
                        credentials@[k as int].0@,
                        credentials@[k as int].1@,
                    ));
                    let mut line = concat("    * ", credentials[k].0.as_str());
                    line.append(": ");
                    line.append(crate::text::preview_of(credentials[k].1.as_str(), 20).as_str());
                    push_line(&mut lines, line);
                    k += 1;
                    assert(lines.deep_view() =~= listed + credential_lines(
                        credentials.deep_view(),
                        k as nat,
                    ));
                }
                i += 1;
                assert(lines.deep_view() =~= titled + finding_lines(findings, i as nat));
            }
            push_text(&mut lines, "");
        }
        let ghost with_findings = lines.deep_view();
        assert(with_findings =~= with_forms + (if findings.len() > 0 {
            seq!["Interactions containing credentials: "@ + crate::text::decimal(findings.len())]
                + finding_lines(findings, findings.len()) + seq![""@]
        } else {
            Seq::empty()
        }));
        if self.sensitive_headers.len() > 0 {
            push_line(
                &mut lines,
                crate::text::numbered("Interactions with sensitive headers: ", self.sensitive_headers.len()),
            );
            let ghost titled = lines.deep_view();
            let mut i: usize = 0;
            assert(lines.deep_view() =~= titled + header_lines(headers, 0));
            while i < self.sensitive_headers.len()
                invariant
                    i <= self.sensitive_headers.len(),
                    headers == self.sensitive_headers.deep_view(),
                    lines.deep_view() == titled + header_lines(headers, i as nat),
                decreases self.sensitive_headers.len() - i,
            {
                let idx = self.sensitive_headers[i].0;
                let name = &self.sensitive_headers[i].1;
                let values = &self.sensitive_headers[i].2;
                assert(headers[i as int] == (idx, name@, values.deep_view()));
                let mut line = crate::text::numbered("  - Interaction #", idx);
                line.append(": ");
                line.append(name.as_str());
                line.append(" header");
                push_line(&mut lines, line);
                let ghost listed = lines.deep_view();
                let mut k: usize = 0;
                assert(lines.deep_view() =~= listed + value_lines(values.deep_view(), 0));
                while k < values.len()
                    invariant
                        k <= values.len(),
                        lines.deep_view() == listed + value_lines(values.deep_view(), k as nat),
                    decreases values.len() - k,
                {
                    assert(values.deep_view()[k as int] == values@[k as int]@);
                    let line = concat(
                        "    * ",
                        crate::text::preview_of(values[k].as_str(), 50).as_str(),
                    );
                    push_line(&mut lines, line);
                    k += 1;
                    assert(lines.deep_view() =~= listed + value_lines(values.deep_view(), k as nat));
                }
                i += 1;
                assert(lines.deep_view() =~= titled + header_lines(headers, i as nat));
            }
            push_text(&mut lines, "");
        }
        let ghost with_headers = lines.deep_view();
        assert(with_headers =~= with_findings + (if headers.len() > 0 {
            seq!["Interactions with sensitive headers: "@ + crate::text::decimal(headers.len())]
                + header_lines(headers, headers.len()) + seq![""@]
        } else {
            Seq::empty()
        }));
        push_text(&mut lines, "Recommendations:");
        if self.requests_with_credentials.len() > 0 {
            push_text(
                &mut lines,
                "  - Use SmartFormFilter to automatically detect and filter form credentials",
            );
        }
        if self.sensitive_headers.len() > 0 {
            push_text(
                &mut lines,
                "  - Use HeaderFilter to filter sensitive headers like cookies and tokens",
            );
        }
        if self.requests_with_form_data.len() == 0 && self.sensitive_headers.len() == 0 {
            push_text(
                &mut lines,
                "  - No obvious sensitive data detected, but consider reviewing manually",
            );
        }
        assert(lines.deep_view() =~= report_lines(
            file@,
            self.total_interactions as nat,
            positions,
            findings,
            headers,
        ));
        lines
    }
}

} // verus!
