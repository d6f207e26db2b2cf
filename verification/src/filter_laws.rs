//! What holds of the filters: what is removed is gone, what is returned to
//! the caller is untouched.

use crate::body_filter::{items_filtered, json_filtered, members_filtered};
use crate::client::pristine;
use crate::json::JsonView;
use crate::ordered_map::{lemma_position_bounds, position};
use crate::url_filter::pairs_filtered;
use crate::filter::{
    chain_request_outcome, chain_response_outcome, headers_removed, headers_replaced, Filter,
    HeaderFilter,
};
use crate::http::LiveResponseView;
use crate::ordered_map::{
    distinct_keys, has_key, lemma_with_entry, lemma_without_key, lookup, with_entry, without_key,
};
use crate::serializable::{stored_response, RequestView, ResponseView};
use vstd::prelude::*;

verus! {

/// A chain of one filter does what the filter does.
pub proof fn lemma_single_filter<T: Filter + ?Sized>(
    filters: Seq<Box<T>>,
    request: RequestView,
    filtered_request: RequestView,
    response: ResponseView,
    filtered_response: ResponseView,
)
    requires
        filters.len() == 1,
    ensures
        chain_request_outcome(filters, 1, request, filtered_request)
            == filters[0].request_outcome(request, filtered_request),
        chain_response_outcome(filters, 1, response, filtered_response)
            == filters[0].response_outcome(response, filtered_response),
{
    reveal_with_fuel(chain_request_outcome, 2);
    reveal_with_fuel(chain_response_outcome, 2);
    if filters[0].request_outcome(request, filtered_request) {
        assert(chain_request_outcome(filters, 0, request, request));
        assert(filters[1 - 1].request_outcome(request, filtered_request));
    }
    if filters[0].response_outcome(response, filtered_response) {
        assert(chain_response_outcome(filters, 0, response, response));
        assert(filters[1 - 1].response_outcome(response, filtered_response));
    }
}

/// Removing names keeps the names of a header map distinct, and a name
/// that has been removed stays away.
pub proof fn lemma_removed_stays_away(
    headers: Seq<(Seq<char>, Seq<Seq<char>>)>,
    names: Seq<Seq<char>>,
    k: int,
    n: nat,
)
    requires
        distinct_keys(headers),
        0 <= k < n <= names.len(),
    ensures
        distinct_keys(headers_removed(headers, names, n)),
        !has_key(headers_removed(headers, names, n), names[k]),
    decreases n,
{
    lemma_removal_keeps_distinct(headers, names, (n - 1) as nat);
    let prev = headers_removed(headers, names, (n - 1) as nat);
    lemma_without_key(prev, names[n - 1]);
    if k < n - 1 {
        lemma_removed_stays_away(headers, names, k, (n - 1) as nat);
        if names[n - 1] != names[k] {
            assert(lookup(without_key(prev, names[n - 1]), names[k]) == lookup(prev, names[k]));
        }
    }
}

/// Removing names keeps the names of a header map distinct.
pub proof fn lemma_removal_keeps_distinct(
    headers: Seq<(Seq<char>, Seq<Seq<char>>)>,
    names: Seq<Seq<char>>,
    n: nat,
)
    requires
        distinct_keys(headers),
        n <= names.len(),
    ensures
        distinct_keys(headers_removed(headers, names, n)),
    decreases n,
{
    if n > 0 {
        lemma_removal_keeps_distinct(headers, names, (n - 1) as nat);
        lemma_without_key(headers_removed(headers, names, (n - 1) as nat), names[n - 1]);
    }
}

/// Replacing values brings no header back: a name that is absent stays
/// absent.
pub proof fn lemma_replacing_adds_nothing(
    headers: Seq<(Seq<char>, Seq<Seq<char>>)>,
    replacements: Seq<(Seq<char>, Seq<char>)>,
    n: nat,
    name: Seq<char>,
)
    requires
        distinct_keys(headers),
        !has_key(headers, name),
        n <= replacements.len(),
    ensures
        distinct_keys(headers_replaced(headers, replacements, n)),
        !has_key(headers_replaced(headers, replacements, n), name),
    decreases n,
{
    if n > 0 {
        lemma_replacing_adds_nothing(headers, replacements, (n - 1) as nat, name);
        let prev = headers_replaced(headers, replacements, (n - 1) as nat);
        let r = replacements[n - 1];
        if has_key(prev, r.0) {
            lemma_with_entry(prev, r.0, seq![r.1]);
            assert(lookup(with_entry(prev, r.0, seq![r.1]), name) == lookup(prev, name));
        }
    }
}

/// A header that a header filter removes is not in what the filter returns.
pub proof fn lemma_header_removed(
    filter: HeaderFilter,
    headers: Seq<(Seq<char>, Seq<Seq<char>>)>,
    name: Seq<char>,
)
    requires
        distinct_keys(headers),
        filter.removed().contains(name),
    ensures
        !has_key(filter.filtered(headers), name),
{
    let names = filter.removed();
    let k = choose|k: int| 0 <= k < names.len() && names[k] == name;
    lemma_removed_stays_away(headers, names, k, names.len());
    lemma_replacing_adds_nothing(
        headers_removed(headers, names, names.len()),
        filter.replaced(),
        filter.replaced().len(),
        name,
    );
}

/// Filter isolation. A response is recorded under a chain of one header
/// filter that removes `name`. The response that goes back to the caller
/// has the headers of the response that came from the transport; the
/// response that is stored has no header `name`.
pub proof fn lemma_filter_isolation(
    filters: Seq<Box<HeaderFilter>>,
    name: Seq<char>,
    response: LiveResponseView,
    stored: ResponseView,
)
    requires
        filters.len() == 1,
        filters[0].removed().contains(name),
        distinct_keys(response.headers),
        chain_response_outcome(filters, 1, stored_response(pristine(response)), stored),
    ensures
        pristine(response).headers == response.headers,
        !has_key(stored.headers, name),
{
    let before = stored_response(pristine(response));
    let blank = RequestView {
        method: Seq::empty(),
        url: Seq::empty(),
        headers: Seq::empty(),
        body: None,
        body_base64: None,
        version: Seq::empty(),
    };
    lemma_single_filter(filters, blank, blank, before, stored);
    lemma_header_removed(*filters[0], before.headers, name);
}

/// Removing the same names a second time changes nothing.
pub proof fn lemma_removal_idempotent(
    headers: Seq<(Seq<char>, Seq<Seq<char>>)>,
    names: Seq<Seq<char>>,
    n: nat,
)
    requires
        distinct_keys(headers),
        n <= names.len(),
    ensures
        headers_removed(headers_removed(headers, names, names.len()), names, n) == headers_removed(
            headers,
            names,
            names.len(),
        ),
    decreases n,
{
    if n > 0 {
        lemma_removal_idempotent(headers, names, (n - 1) as nat);
        lemma_removed_stays_away(headers, names, n - 1, names.len());
    }
}

/// Replacing values keeps the names of a header map distinct.
pub proof fn lemma_replacing_keeps_distinct(
    headers: Seq<(Seq<char>, Seq<Seq<char>>)>,
    replacements: Seq<(Seq<char>, Seq<char>)>,
    n: nat,
)
    requires
        distinct_keys(headers),
        n <= replacements.len(),
    ensures
        distinct_keys(headers_replaced(headers, replacements, n)),
    decreases n,
{
    if n > 0 {
        lemma_replacing_keeps_distinct(headers, replacements, (n - 1) as nat);
        let prev = headers_replaced(headers, replacements, (n - 1) as nat);
        let r = replacements[n - 1];
        if has_key(prev, r.0) {
            lemma_with_entry(prev, r.0, seq![r.1]);
        }
    }
}

/// After the first `n` replacements, a header that one of them names has
/// the replacement as its only value, if it is there.
pub proof fn lemma_replaced_values(
    headers: Seq<(Seq<char>, Seq<Seq<char>>)>,
    replacements: Seq<(Seq<char>, Seq<char>)>,
    n: nat,
    j: int,
)
    requires
        distinct_keys(headers),
        distinct_keys(replacements),
        0 <= j < n <= replacements.len(),
    ensures
        has_key(headers_replaced(headers, replacements, n), replacements[j].0) ==> lookup(
            headers_replaced(headers, replacements, n),
            replacements[j].0,
        ) == Some(seq![replacements[j].1]),
    decreases n,
{
    lemma_replacing_keeps_distinct(headers, replacements, (n - 1) as nat);
    let prev = headers_replaced(headers, replacements, (n - 1) as nat);
    let r = replacements[n - 1];
    if has_key(prev, r.0) {
        lemma_with_entry(prev, r.0, seq![r.1]);
    }
    if j < n - 1 {
        lemma_replaced_values(headers, replacements, (n - 1) as nat, j);
        assert(replacements[j].0 != r.0);
        if has_key(prev, r.0) {
            assert(lookup(with_entry(prev, r.0, seq![r.1]), replacements[j].0) == lookup(
                prev,
                replacements[j].0,
            ));
        }
    }
}

/// Replacements change nothing in a header map in which every header that
/// they name already has the replacement as its only value.
pub proof fn lemma_replacing_again(
    headers: Seq<(Seq<char>, Seq<Seq<char>>)>,
    replacements: Seq<(Seq<char>, Seq<char>)>,
    n: nat,
)
    requires
        n <= replacements.len(),
        forall|j: int|
            0 <= j < replacements.len() && has_key(headers, (#[trigger] replacements[j]).0)
                ==> lookup(headers, replacements[j].0) == Some(seq![replacements[j].1]),
    ensures
        headers_replaced(headers, replacements, n) == headers,
    decreases n,
{
    if n > 0 {
        lemma_replacing_again(headers, replacements, (n - 1) as nat);
        let r = replacements[n - 1];
        if has_key(headers, r.0) {
            lemma_position_bounds(headers, r.0, 0);
            let p = position(headers, r.0);
            assert(headers[p] == (r.0, seq![r.1]));
            assert(with_entry(headers, r.0, seq![r.1]) =~= headers);
        }
    }
}

/// Removals change nothing in a header map that holds none of the names.
pub proof fn lemma_removing_again(
    headers: Seq<(Seq<char>, Seq<Seq<char>>)>,
    names: Seq<Seq<char>>,
    n: nat,
)
    requires
        n <= names.len(),
        forall|k: int| 0 <= k < names.len() ==> !has_key(headers, #[trigger] names[k]),
    ensures
        headers_removed(headers, names, n) == headers,
    decreases n,
{
    if n > 0 {
        lemma_removing_again(headers, names, (n - 1) as nat);
    }
}

/// A header filter is idempotent: what it returns, it leaves as it is.
pub proof fn lemma_header_filter_idempotent(
    filter: HeaderFilter,
    headers: Seq<(Seq<char>, Seq<Seq<char>>)>,
)
    requires
        distinct_keys(headers),
        distinct_keys(filter.replaced()),
    ensures
        filter.filtered(filter.filtered(headers)) == filter.filtered(headers),
{
    let names = filter.removed();
    let replacements = filter.replaced();
    let stripped = headers_removed(headers, names, names.len());
    let once = filter.filtered(headers);
    lemma_removal_keeps_distinct(headers, names, names.len());
    assert forall|k: int| 0 <= k < names.len() implies !has_key(once, #[trigger] names[k]) by {
        assert(names.contains(names[k]));
        lemma_header_removed(filter, headers, names[k]);
    }
    lemma_removing_again(once, names, names.len());
    assert forall|j: int|
        0 <= j < replacements.len() && has_key(once, (#[trigger] replacements[j]).0) implies lookup(
        once,
        replacements[j].0,
    ) == Some(seq![replacements[j].1]) by {
        lemma_replaced_values(stripped, replacements, replacements.len(), j);
    }
    lemma_replacing_again(once, replacements, replacements.len());
}

/// The first pairs of a query are filtered alike whatever follows them.
pub proof fn lemma_pairs_prefix(
    s: Seq<(Seq<char>, Seq<char>)>,
    t: Seq<(Seq<char>, Seq<char>)>,
    n: nat,
    remove: Seq<Seq<char>>,
    replace: Seq<(Seq<char>, Seq<char>)>,
)
    requires
        n <= s.len(),
        n <= t.len(),
        forall|i: int| 0 <= i < n ==> s[i] == t[i],
    ensures
        pairs_filtered(s, n, remove, replace) == pairs_filtered(t, n, remove, replace),
    decreases n,
{
    if n > 0 {
        lemma_pairs_prefix(s, t, (n - 1) as nat, remove, replace);
    }
}

/// Filtering the pairs of a query is idempotent: what it returns, it
/// leaves as it is.
pub proof fn lemma_pairs_filtered_idempotent(
    pairs: Seq<(Seq<char>, Seq<char>)>,
    n: nat,
    remove: Seq<Seq<char>>,
    replace: Seq<(Seq<char>, Seq<char>)>,
)
    requires
        n <= pairs.len(),
    ensures
        ({
            let once = pairs_filtered(pairs, n, remove, replace);
            pairs_filtered(once, once.len(), remove, replace) == once
        }),
    decreases n,
{
    if n > 0 {
        lemma_pairs_filtered_idempotent(pairs, (n - 1) as nat, remove, replace);
        let rest = pairs_filtered(pairs, (n - 1) as nat, remove, replace);
        let once = pairs_filtered(pairs, n, remove, replace);
        if once != rest {
            lemma_pairs_prefix(once, rest, rest.len(), remove, replace);
            assert(once.len() == rest.len() + 1);
            assert(once[once.len() - 1] == once.last());
        }
    }
}

/// The first items of an array are filtered alike whatever follows them,
/// and as many come out as went in.
pub proof fn lemma_items_prefix(
    s: Seq<JsonView>,
    t: Seq<JsonView>,
    n: nat,
    remove: Seq<Seq<char>>,
    replace: Seq<(Seq<char>, Seq<char>)>,
)
    requires
        n <= s.len(),
        n <= t.len(),
        forall|i: int| 0 <= i < n ==> s[i] == t[i],
    ensures
        items_filtered(s, n, remove, replace) == items_filtered(t, n, remove, replace),
        items_filtered(s, n, remove, replace).len() == n,
    decreases n,
{
    if n > 0 {
        lemma_items_prefix(s, t, (n - 1) as nat, remove, replace);
    }
}

/// The first members of an object are filtered alike whatever follows
/// them.
pub proof fn lemma_members_prefix(
    s: Seq<(Seq<char>, JsonView)>,
    t: Seq<(Seq<char>, JsonView)>,
    n: nat,
    remove: Seq<Seq<char>>,
    replace: Seq<(Seq<char>, Seq<char>)>,
)
    requires
        n <= s.len(),
        n <= t.len(),
        forall|i: int| 0 <= i < n ==> s[i] == t[i],
    ensures
        members_filtered(s, n, remove, replace) == members_filtered(t, n, remove, replace),
    decreases n,
{
    if n > 0 {
        lemma_members_prefix(s, t, (n - 1) as nat, remove, replace);
    }
}

/// Filtering the keys of a JSON tree is idempotent: what it returns, it
/// leaves as it is.
pub proof fn lemma_json_filtered_idempotent(
    tree: JsonView,
    remove: Seq<Seq<char>>,
    replace: Seq<(Seq<char>, Seq<char>)>,
)
    ensures
        json_filtered(json_filtered(tree, remove, replace), remove, replace) == json_filtered(
            tree,
            remove,
            replace,
        ),
    decreases tree, 0nat,
{
    match tree {
        JsonView::Array(items) => {
            lemma_items_filtered_idempotent(items, items.len(), remove, replace);
        },
        JsonView::Object(members) => {
            lemma_members_filtered_idempotent(members, members.len(), remove, replace);
        },
        _ => {},
    }
}

/// Filtering the items of an array is idempotent.
pub proof fn lemma_items_filtered_idempotent(
    items: Seq<JsonView>,
    n: nat,
    remove: Seq<Seq<char>>,
    replace: Seq<(Seq<char>, Seq<char>)>,
)
    requires
        n <= items.len(),
    ensures
        ({
            let once = items_filtered(items, n, remove, replace);
            items_filtered(once, once.len(), remove, replace) == once
        }),
    decreases items, n,
{
    lemma_items_prefix(items, items, n, remove, replace);
    if n > 0 {
        lemma_items_filtered_idempotent(items, (n - 1) as nat, remove, replace);
        lemma_json_filtered_idempotent(items[n - 1], remove, replace);
        let rest = items_filtered(items, (n - 1) as nat, remove, replace);
        let once = items_filtered(items, n, remove, replace);
        lemma_items_prefix(items, items, (n - 1) as nat, remove, replace);
        lemma_items_prefix(once, rest, rest.len(), remove, replace);
        assert(once[n - 1] == json_filtered(items[n - 1], remove, replace));
    }
}

/// Filtering the members of an object is idempotent.
pub proof fn lemma_members_filtered_idempotent(
    members: Seq<(Seq<char>, JsonView)>,
    n: nat,
    remove: Seq<Seq<char>>,
    replace: Seq<(Seq<char>, Seq<char>)>,
)
    requires
        n <= members.len(),
    ensures
        ({
            let once = members_filtered(members, n, remove, replace);
            members_filtered(once, once.len(), remove, replace) == once
        }),
    decreases members, n,
{
    if n > 0 {
        lemma_members_filtered_idempotent(members, (n - 1) as nat, remove, replace);
        let rest = members_filtered(members, (n - 1) as nat, remove, replace);
        let once = members_filtered(members, n, remove, replace);
        let member = members[n - 1];
        if once != rest {
            lemma_members_prefix(once, rest, rest.len(), remove, replace);
            assert(once.len() == rest.len() + 1);
            assert(once[once.len() - 1] == once.last());
            if !has_key(replace, member.0) {
                lemma_json_filtered_idempotent(member.1, remove, replace);
            }
        }
    }
}

} // verus!
