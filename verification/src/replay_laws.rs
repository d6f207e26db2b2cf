//! What holds of a client over several calls.
//!
//! The laws are generic over the kinds of matcher and filter. A proof about
//! a client that holds boxed matchers and filters of any kind calls them
//! from a function that is itself generic over those kinds, and hands that
//! function the client.

use crate::client::{
    answers, consulted_with, decided, is_hit, is_probe, probe_matches, recorded, ClientView, Probe,
    Step, VcrMode,
};
use crate::error::ErrorKind;
use crate::filter::{chain_request_outcome, Filter};
use crate::http::LiveRequestView;
use crate::matcher::RequestMatcher;
use crate::serializable::{replayed_response, stored_request, RequestView, ResponseView};
use vstd::prelude::*;

verus! {

/// The positions below `n`.
pub open spec fn below(n: nat) -> Set<usize> {
    Set::new(|i: usize| i < n)
}

/// Whether every one of the recorded interactions corresponds to the
/// request, whatever the filters make of it.
pub open spec fn all_answer<C, M: RequestMatcher + ?Sized, T: Filter + ?Sized>(
    client: ClientView<C, M, T>,
    req: LiveRequestView,
    body_read: bool,
) -> bool {
    forall|probe: Probe, i: int|
        0 <= i < client.interactions.len() && #[trigger] is_probe(client, req, body_read, probe)
            ==> #[trigger] probe_matches(client.matcher, probe, client.interactions[i].request)
}

/// Whether none of the recorded interactions corresponds to the request,
/// whatever the filters make of it.
pub open spec fn none_answers<C, M: RequestMatcher + ?Sized, T: Filter + ?Sized>(
    client: ClientView<C, M, T>,
    req: LiveRequestView,
    body_read: bool,
) -> bool {
    forall|probe: Probe, i: int|
        0 <= i < client.interactions.len() && #[trigger] is_probe(client, req, body_read, probe)
            ==> !#[trigger] probe_matches(client.matcher, probe, client.interactions[i].request)
}

/// With the first `k` interactions replayed and every interaction
/// answering, the next call replays the interaction at `k`.
pub proof fn lemma_replay_next<C, M: RequestMatcher + ?Sized, T: Filter + ?Sized>(
    first: ClientView<C, M, T>,
    before: ClientView<C, M, T>,
    req: LiveRequestView,
    body_read: bool,
    k: nat,
    step: Step,
    after: ClientView<C, M, T>,
)
    requires
        first.mode == VcrMode::Replay,
        all_answer(first, req, body_read),
        first.interactions.len() <= usize::MAX,
        before == (ClientView { used: below(k), ..first }),
        k < first.interactions.len(),
        decided(before, req, body_read, step, after),
    ensures
        step is Respond,
        step->Respond_0@ == replayed_response(first.interactions[k as int].response),
        after == (ClientView { used: below(k + 1), ..first }),
{
    let (probe, hit) = choose|probe: Probe, hit: Option<usize>|
        is_probe(before, req, body_read, probe) && is_hit(before, probe, hit)
            && #[trigger] consulted_with(before, req, probe, hit, step, after);
    assert(is_probe(first, req, body_read, probe));
    assert(probe_matches(first.matcher, probe, first.interactions[k as int].request));
    assert(answers(before, probe, k as int));
    match hit {
        Some(i) => {
            if i < k {
                assert(below(k).contains(i));
            }
            if i > k {
                assert(!answers(before, probe, k as int));
            }
            assert(i == k);
            assert(below(k).insert(i) =~= below(k + 1));
        },
        None => {
            assert(!answers(before, probe, k as int));
        },
    }
}

/// With every interaction replayed, the next call fails and changes
/// nothing.
pub proof fn lemma_replay_exhausted<C, M: RequestMatcher + ?Sized, T: Filter + ?Sized>(
    before: ClientView<C, M, T>,
    req: LiveRequestView,
    body_read: bool,
    step: Step,
    after: ClientView<C, M, T>,
)
    requires
        before.mode == VcrMode::Replay,
        before.used == below(before.interactions.len()),
        decided(before, req, body_read, step, after),
    ensures
        step is Fail,
        step->Fail_0.kind == ErrorKind::NoMatch,
        after == before,
{
    let (probe, hit) = choose|probe: Probe, hit: Option<usize>|
        is_probe(before, req, body_read, probe) && is_hit(before, probe, hit)
            && #[trigger] consulted_with(before, req, probe, hit, step, after);
    match hit {
        Some(i) => {
            assert(answers(before, probe, i as int));
            assert(below(before.interactions.len()).contains(i));
        },
        None => {},
    }
}

/// At-most-once replay. A client in `Replay` mode holds `n` interactions,
/// none replayed yet, each of which corresponds to the request. Of `n + 1`
/// calls with that request in a row, call `k` is answered with the recorded
/// response at `k`, and the last one fails with `NoMatch`.
pub proof fn lemma_replay_in_order<C, M: RequestMatcher + ?Sized, T: Filter + ?Sized>(
    states: Seq<ClientView<C, M, T>>,
    steps: Seq<Step>,
    req: LiveRequestView,
    body_read: bool,
)
    requires
        states.len() == steps.len() + 1,
        steps.len() == states[0].interactions.len() + 1,
        states[0].interactions.len() <= usize::MAX,
        states[0].mode == VcrMode::Replay,
        states[0].used == Set::<usize>::empty(),
        all_answer(states[0], req, body_read),
        forall|k: int|
            0 <= k < steps.len() ==> decided(
                #[trigger] states[k],
                req,
                body_read,
                steps[k],
                states[k + 1],
            ),
    ensures
        forall|k: int|
            0 <= k < states[0].interactions.len() ==> (#[trigger] steps[k]) is Respond
                && steps[k]->Respond_0@ == replayed_response(states[0].interactions[k].response),
        steps.last() is Fail,
        steps.last()->Fail_0.kind == ErrorKind::NoMatch,
{
    let n = states[0].interactions.len();
    assert(states[0] == (ClientView { used: below(0), ..states[0] })) by {
        assert(below(0) =~= Set::<usize>::empty());
    }
    lemma_replay_prefix(states, steps, req, body_read, n);
    lemma_replay_exhausted(states[n as int], req, body_read, steps[n as int], states[n as int + 1]);
}

/// The first `upto` calls of `lemma_replay_in_order`.
proof fn lemma_replay_prefix<C, M: RequestMatcher + ?Sized, T: Filter + ?Sized>(
    states: Seq<ClientView<C, M, T>>,
    steps: Seq<Step>,
    req: LiveRequestView,
    body_read: bool,
    upto: nat,
)
    requires
        states.len() == steps.len() + 1,
        steps.len() == states[0].interactions.len() + 1,
        states[0].interactions.len() <= usize::MAX,
        states[0].mode == VcrMode::Replay,
        states[0] == (ClientView { used: below(0), ..states[0] }),
        all_answer(states[0], req, body_read),
        upto <= states[0].interactions.len(),
        forall|k: int|
            0 <= k < steps.len() ==> decided(
                #[trigger] states[k],
                req,
                body_read,
                steps[k],
                states[k + 1],
            ),
    ensures
        states[upto as int] == (ClientView { used: below(upto), ..states[0] }),
        forall|k: int|
            0 <= k < upto ==> (#[trigger] steps[k]) is Respond && steps[k]->Respond_0@
                == replayed_response(states[0].interactions[k].response),
    decreases upto,
{
    if upto > 0 {
        let k = (upto - 1) as nat;
        lemma_replay_prefix(states, steps, req, body_read, k);
        lemma_replay_next(
            states[0],
            states[k as int],
            req,
            body_read,
            k,
            steps[k as int],
            states[k as int + 1],
        );
    }
}

/// `Once` on an empty cassette: the call goes to the transport and is
/// recorded, and nothing changes until it is.
pub proof fn lemma_once_records_first<C, M: RequestMatcher + ?Sized, T: Filter + ?Sized>(
    before: ClientView<C, M, T>,
    req: LiveRequestView,
    body_read: bool,
    step: Step,
    after: ClientView<C, M, T>,
)
    requires
        before.mode == VcrMode::Once,
        before.interactions.len() == 0,
        decided(before, req, body_read, step, after),
    ensures
        step is ForwardAndRecord,
        after == before,
{
    let (probe, hit) = choose|probe: Probe, hit: Option<usize>|
        is_probe(before, req, body_read, probe) && is_hit(before, probe, hit)
            && #[trigger] consulted_with(before, req, probe, hit, step, after);
    match hit {
        Some(i) => {
            assert(answers(before, probe, i as int));
        },
        None => {},
    }
}

/// `Once` after the first recording: the same request is answered from the
/// record, without the transport. This holds where the filters make one
/// thing only of the request and the matcher holds that to correspond to
/// itself.
pub proof fn lemma_once_replays_second<C, M: RequestMatcher + ?Sized, T: Filter + ?Sized>(
    empty: ClientView<C, M, T>,
    req: LiveRequestView,
    stored: RequestView,
    response: ResponseView,
    step: Step,
    after: ClientView<C, M, T>,
)
    requires
        empty.mode == VcrMode::Once,
        empty.interactions.len() == 0,
        empty.used == Set::<usize>::empty(),
        chain_request_outcome(empty.filters, empty.filters.len(), stored_request(req), stored),
        forall|other: RequestView| #[trigger]
            chain_request_outcome(
                empty.filters,
                empty.filters.len(),
                stored_request(req),
                other,
            ) ==> other == stored,
        empty.matcher.stored_match(stored, stored),
        decided(recorded(empty, stored, response), req, true, step, after),
    ensures
        step is Respond,
        step->Respond_0@ == replayed_response(response),
        after.interactions == recorded(empty, stored, response).interactions,
{
    let before = recorded(empty, stored, response);
    let (probe, hit) = choose|probe: Probe, hit: Option<usize>|
        is_probe(before, req, true, probe) && is_hit(before, probe, hit)
            && #[trigger] consulted_with(before, req, probe, hit, step, after);
    assert(probe == Probe::Stored(stored));
    assert(before.interactions[0].request == stored);
    assert(answers(before, probe, 0));
    match hit {
        Some(i) => {
            assert(answers(before, probe, i as int));
            assert(i == 0);
        },
        None => {
            assert(!answers(before, probe, 0));
        },
    }
}

/// `Once` on a cassette that holds interactions of which none corresponds
/// to the request: the call fails with `NoMatch`; the transport is not
/// called and nothing changes.
pub proof fn lemma_once_rejects_unknown<C, M: RequestMatcher + ?Sized, T: Filter + ?Sized>(
    before: ClientView<C, M, T>,
    req: LiveRequestView,
    body_read: bool,
    step: Step,
    after: ClientView<C, M, T>,
)
    requires
        before.mode == VcrMode::Once,
        before.interactions.len() > 0,
        none_answers(before, req, body_read),
        decided(before, req, body_read, step, after),
    ensures
        step is Fail,
        step->Fail_0.kind == ErrorKind::NoMatch,
        after == before,
{
    let (probe, hit) = choose|probe: Probe, hit: Option<usize>|
        is_probe(before, req, body_read, probe) && is_hit(before, probe, hit)
            && #[trigger] consulted_with(before, req, probe, hit, step, after);
    match hit {
        Some(i) => {
            assert(answers(before, probe, i as int));
            assert(probe_matches(before.matcher, probe, before.interactions[i as int].request));
        },
        None => {},
    }
}

} // verus!
