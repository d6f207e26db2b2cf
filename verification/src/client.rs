//! The client: the mode-driven decisions about a request, the tracking of
//! which recorded interactions have been replayed, and the recording of new
//! ones. The client decides and keeps the books; the caller performs the
//! network call that a decision asks for.

use crate::cassette::{
    is_save_plan, Cassette, CassetteFormat, Interaction, InteractionView, SavePlan,
};
use crate::diagnostics::{no_match_message, no_match_text};
use crate::error::{ErrorKind, VcrError};
use crate::filter::{chain_request_outcome, chain_response_outcome, Filter, FilterChain};
use crate::http::{LiveRequest, LiveRequestView, LiveResponse, LiveResponseView};
use crate::matcher::{live_headers_agree, stored_headers_agree, DefaultMatcher, RequestMatcher};
use crate::serializable::{
    replayed_response, stored_request, stored_response, RequestView, SerializableRequest,
    SerializableResponse,
};
use std::collections::HashSet;
use std::path::PathBuf;
use vstd::prelude::*;
use vstd::std_specs::hash::*;
use vstd::string::*;

verus! {

broadcast use vstd::std_specs::hash::group_hash_axioms;

/// How the client treats a request.
#[derive(Debug, Clone, Copy, PartialEq, Eq, Structural)]
pub enum VcrMode {
    /// Always call through and store the outcome; what was on record before
    /// the first call is dropped.
    Record,
    /// Never call through: answer from the record or fail.
    Replay,
    /// Answer from the record; record where there is no record yet.
    Once,
    /// Call through and store nothing.
    Passthrough,
    /// As `Replay`, for a record that has been filtered.
    Filter,
}

/// What the client decides about a request.
#[derive(Debug)]
pub enum Step {
    /// Answer with this response; the transport is not called.
    Respond(LiveResponse),
    /// Fail with this error; the transport is not called.
    Fail(VcrError),
    /// Call the transport and hand back what it returns.
    Forward,
    /// Call the transport and hand the outcome to
    /// `record_and_return_response`.
    ForwardAndRecord,
}

/// The request that is compared with the recorded ones.
pub enum Probe {
    /// The live request in stored form, after the filters.
    Stored(RequestView),
    /// The live request as it is, where its body could not be read.
    Live(LiveRequestView),
}

/// Whether a matcher holds the probe to correspond to a recorded request.
pub open spec fn probe_matches<M: RequestMatcher + ?Sized>(
    matcher: Box<M>,
    probe: Probe,
    recorded: RequestView,
) -> bool {
    match probe {
        Probe::Stored(request) => matcher.stored_match(request, recorded),
        Probe::Live(request) => matcher.live_match(request, recorded),
    }
}

/// The probe for a live request: its filtered stored form where there is
/// one, else the request itself.
pub open spec fn probe_of(filtered: Option<SerializableRequest>, req: LiveRequestView) -> Probe {
    match filtered {
        Some(f) => Probe::Stored(f@),
        None => Probe::Live(req),
    }
}

/// What a client holds.
pub struct ClientView<C, M: ?Sized, T: ?Sized> {
    pub inner: C,
    pub interactions: Seq<InteractionView>,
    pub path: Option<PathBuf>,
    pub modified: bool,
    pub format: CassetteFormat,
    pub mode: VcrMode,
    pub matcher: Box<M>,
    pub filters: Seq<Box<T>>,
    pub recording_started: bool,
    pub used: Set<usize>,
}

/// Whether `probe` is a request that the client may compare for the live
/// request `req`: the stored form of the request after the filters, or the
/// request itself where its body could not be read.
pub open spec fn is_probe<C, M: RequestMatcher + ?Sized, T: Filter + ?Sized>(
    client: ClientView<C, M, T>,
    req: LiveRequestView,
    body_read: bool,
    probe: Probe,
) -> bool {
    if body_read {
        probe is Stored && chain_request_outcome(
            client.filters,
            client.filters.len(),
            stored_request(req),
            probe->Stored_0,
        )
    } else {
        probe == Probe::Live(req)
    }
}

/// Whether the interaction at `i` has not been replayed and answers the
/// probe.
pub open spec fn answers<C, M: RequestMatcher + ?Sized, T: Filter + ?Sized>(client: ClientView<C, M, T>, probe: Probe, i: int) -> bool {
    &&& 0 <= i < client.interactions.len()
    &&& !client.used.contains(i as usize)
    &&& probe_matches(client.matcher, probe, client.interactions[i].request)
}

/// Whether `hit` is the first interaction that answers the probe, or `None`
/// where none does.
pub open spec fn is_hit<C, M: RequestMatcher + ?Sized, T: Filter + ?Sized>(client: ClientView<C, M, T>, probe: Probe, hit: Option<usize>) -> bool {
    match hit {
        Some(i) => answers(client, probe, i as int) && forall|j: int|
            0 <= j < i ==> !#[trigger] answers(client, probe, j),
        None => forall|j: int| !#[trigger] answers(client, probe, j),
    }
}

/// The outcome of a replay: the recorded response at `hit`, which is then
/// marked as replayed, or a failure that names what was asked for.
pub open spec fn replayed<C, M: RequestMatcher + ?Sized, T: Filter + ?Sized>(
    before: ClientView<C, M, T>,
    req: LiveRequestView,
    hit: Option<usize>,
    description: Seq<char>,
    step: Step,
    after: ClientView<C, M, T>,
) -> bool {
    match hit {
        Some(i) => {
            &&& step is Respond
            &&& step->Respond_0@ == replayed_response(before.interactions[i as int].response)
            &&& after == ClientView { used: before.used.insert(i), ..before }
        },
        None => {
            &&& step is Fail
            &&& step->Fail_0.kind == ErrorKind::NoMatch
            &&& step->Fail_0.status == 404
            &&& step->Fail_0.message@ == no_match_message(
                description,
                req.method,
                req.url,
                before.interactions,
            )
            &&& after == before
        },
    }
}

/// What the client decides in a mode that consults the record, given the
/// first interaction that answers.
pub open spec fn consulted<C, M: RequestMatcher + ?Sized, T: Filter + ?Sized>(
    before: ClientView<C, M, T>,
    req: LiveRequestView,
    hit: Option<usize>,
    step: Step,
    after: ClientView<C, M, T>,
) -> bool {
    match before.mode {
        VcrMode::Replay => replayed(before, req, hit, "Replay mode"@, step, after),
        VcrMode::Filter => replayed(
            before,
            req,
            hit,
            "Filter mode - no new requests allowed"@,
            step,
            after,
        ),
        VcrMode::Once => if hit.is_none() && before.interactions.len() == 0 {
            step is ForwardAndRecord && after == before
        } else {
            replayed(before, req, hit, "Once mode"@, step, after)
        },
        _ => false,
    }
}

/// What the client decides about a request.
pub open spec fn decided<C, M: RequestMatcher + ?Sized, T: Filter + ?Sized>(
    before: ClientView<C, M, T>,
    req: LiveRequestView,
    body_read: bool,
    step: Step,
    after: ClientView<C, M, T>,
) -> bool {
    match before.mode {
        VcrMode::Passthrough => step is Forward && after == before,
        VcrMode::Record => step is ForwardAndRecord && after == before,
        _ => exists|probe: Probe, hit: Option<usize>|
            is_probe(before, req, body_read, probe) && is_hit(before, probe, hit)
                && #[trigger] consulted_with(before, req, probe, hit, step, after),
    }
}

/// `consulted`, with the probe that was compared.
pub open spec fn consulted_with<C, M: RequestMatcher + ?Sized, T: Filter + ?Sized>(
    before: ClientView<C, M, T>,
    req: LiveRequestView,
    probe: Probe,
    hit: Option<usize>,
    step: Step,
    after: ClientView<C, M, T>,
) -> bool {
    consulted(before, req, hit, step, after)
}

/// The response that the caller gets after a recording: the one that the
/// transport returned, an empty body counted as none.
pub open spec fn pristine(response: LiveResponseView) -> LiveResponseView {
    LiveResponseView {
        body: match response.body {
            Some(b) => if b.len() > 0 {
                Some(b)
            } else {
                None
            },
            None => None,
        },
        ..response
    }
}

/// The state after an exchange has been recorded: in `Record` mode the first
/// recording drops what was on record; the interaction goes to the end and
/// the cassette counts as modified.
pub open spec fn recorded<C, M: RequestMatcher + ?Sized, T: Filter + ?Sized>(
    before: ClientView<C, M, T>,
    request: RequestView,
    response: crate::serializable::ResponseView,
) -> ClientView<C, M, T> {
    let fresh = before.mode == VcrMode::Record && !before.recording_started;
    ClientView {
        interactions: (if fresh {
            Seq::empty()
        } else {
            before.interactions
        }).push(InteractionView { request, response }),
        modified: true,
        recording_started: before.recording_started || before.mode == VcrMode::Record,
        ..before
    }
}

/// The client. `C` is the transport behind it, `M` its matcher and `T` the
/// kind of its filters; with boxed matchers and filters a client takes any.
pub struct VcrClient<
    C,
    M: RequestMatcher + ?Sized = dyn RequestMatcher,
    T: Filter + ?Sized = dyn Filter,
> {
    inner: C,
    cassette: Cassette,
    mode: VcrMode,
    matcher: Box<M>,
    filter_chain: FilterChain<T>,
    recording_started: bool,
    used_interactions: HashSet<usize>,
}

impl<C, M: RequestMatcher + ?Sized, T: Filter + ?Sized> View for VcrClient<C, M, T> {
    type V = ClientView<C, M, T>;

    closed spec fn view(&self) -> ClientView<C, M, T> {
        ClientView {
            inner: self.inner,
            interactions: self.cassette@,
            path: self.cassette.path,
            modified: self.cassette.modified_since_load,
            format: self.cassette.format,
            mode: self.mode,
            matcher: self.matcher,
            filters: self.filter_chain@,
            recording_started: self.recording_started,
            used: self.used_interactions@,
        }
    }
}

/// What the default matcher compares: method, URL and the headers
/// `authorization`, `cookie`, `content-type` and `user-agent`.
pub open spec fn is_default_matcher<M: RequestMatcher + ?Sized>(matcher: &M) -> bool {
    let names = seq!["authorization"@, "cookie"@, "content-type"@, "user-agent"@];
    &&& forall|request: RequestView, recorded: RequestView| #[trigger]
        matcher.stored_match(request, recorded) == (request.method == recorded.method
            && request.url == recorded.url && stored_headers_agree(
            request.headers,
            recorded.headers,
            names,
            4,
        ))
    &&& forall|request: LiveRequestView, recorded: RequestView| #[trigger]
        matcher.live_match(request, recorded) == (request.method == recorded.method && request.url
            == recorded.url && live_headers_agree(request.headers, recorded.headers, names, 4))
}

/// Whether a boxed matcher compares what the default matcher compares.
pub open spec fn is_default_boxed<M: RequestMatcher + ?Sized>(matcher: Box<M>) -> bool {
    is_default_matcher(&*matcher)
}

impl<C> VcrClient<C, dyn RequestMatcher, dyn Filter> {
    /// A client over `cassette` with the default matcher and no filter.
    pub fn new(inner: C, mode: VcrMode, cassette: Cassette) -> (c: Self)
        ensures
            c@.inner == inner,
            c@.interactions == cassette@,
            c@.path == cassette.path,
            c@.modified == cassette.modified_since_load,
            c@.format == cassette.format,
            c@.mode == mode,
            is_default_boxed(c@.matcher),
            c@.filters.len() == 0,
            !c@.recording_started,
            c@.used == Set::<usize>::empty(),
    {
        let matcher = DefaultMatcher::new();
        assert(is_default_matcher(&matcher));
        let boxed: Box<dyn RequestMatcher> = Box::new(matcher);
        assert(is_default_matcher(&*boxed));
        let ghost b = boxed;
        assert(is_default_boxed(b));
        let c = VcrClient::with_parts(inner, mode, cassette, boxed, FilterChain::empty());
        assert(c@.matcher == b);
        c
    }
}

impl<C, M: RequestMatcher + ?Sized, T: Filter + ?Sized> VcrClient<C, M, T> {
    /// A client over `cassette` with the given matcher and filters.
    pub fn with_parts(
        inner: C,
        mode: VcrMode,
        cassette: Cassette,
        matcher: Box<M>,
        filter_chain: FilterChain<T>,
    ) -> (c: Self)
        ensures
            c@.inner == inner,
            c@.interactions == cassette@,
            c@.path == cassette.path,
            c@.modified == cassette.modified_since_load,
            c@.format == cassette.format,
            c@.mode == mode,
            c@.matcher == matcher,
            c@.filters == filter_chain@,
            !c@.recording_started,
            c@.used == Set::<usize>::empty(),
    {
        VcrClient {
            inner,
            cassette,
            mode,
            matcher,
            filter_chain,
            recording_started: false,
            used_interactions: HashSet::new(),
        }
    }

    /// Changes the mode.
    pub fn set_mode(&mut self, mode: VcrMode)
        ensures
            final(self)@ == (ClientView { mode, ..old(self)@ }),
    {
        self.mode = mode;
    }

    /// Changes the matcher.
    pub fn set_matcher(&mut self, matcher: Box<M>)
        ensures
            final(self)@ == (ClientView { matcher, ..old(self)@ }),
    {
        self.matcher = matcher;
    }

    /// Changes the filters.
    pub fn set_filter_chain(&mut self, filter_chain: FilterChain<T>)
        ensures
            final(self)@ == (ClientView { filters: filter_chain@, ..old(self)@ }),
    {
        self.filter_chain = filter_chain;
    }

    /// Adds a filter at the end of the chain.
    pub fn add_filter(&mut self, filter: Box<T>)
        ensures
            final(self)@ == (ClientView { filters: old(self)@.filters.push(filter), ..old(self)@ }),
    {
        let mut chain = FilterChain::empty();
        core::mem::swap(&mut self.filter_chain, &mut chain);
        self.filter_chain = chain.add_filter(filter);
    }

    /// The transport behind the client.
    pub fn inner(&self) -> (inner: &C)
        ensures
            *inner == self@.inner,
    {
        &self.inner
    }

    /// The cassette of the client.
    pub fn cassette(&self) -> (cassette: &Cassette)
        ensures
            cassette@ == self@.interactions,
            cassette.path == self@.path,
            cassette.modified_since_load == self@.modified,
            cassette.format == self@.format,
    {
        &self.cassette
    }

    /// The mode of the client.
    pub fn mode(&self) -> (mode: VcrMode)
        ensures
            mode == self@.mode,
    {
        self.mode
    }

    /// The first recorded interaction that has not been replayed and that
    /// the matcher holds to correspond to the request. The request is
    /// compared in stored form, after the filters; where its body could not
    /// be read, it is compared as it is.
    pub fn find_match(&self, request: &LiveRequest, body_read: bool) -> (hit: Option<usize>)
        ensures
            exists|probe: Probe|
                is_probe(self@, request@, body_read, probe) && #[trigger] is_hit(self@, probe, hit),
    {
        let filtered: Option<SerializableRequest> = if body_read {
            let mut stored = SerializableRequest::from_request(request.clone());
            self.filter_chain.filter_request(&mut stored);
            Some(stored)
        } else {
            None
        };
        let ghost probe = probe_of(filtered, request@);
        assert(is_probe(self@, request@, body_read, probe));
        let mut i: usize = 0;
        while i < self.cassette.interactions.len()
            invariant
                i <= self.cassette.interactions.len(),
                probe == probe_of(filtered, request@),
                is_probe(self@, request@, body_read, probe),
                forall|j: int| 0 <= j < i ==> !#[trigger] answers(self@, probe, j),
            decreases self.cassette.interactions.len() - i,
        {
            let recorded = &self.cassette.interactions[i].request;
            assert(self@.interactions[i as int].request == recorded@);
            if !self.used_interactions.contains(&i) {
                let matched = match &filtered {
                    Some(f) => self.matcher.matches_serializable(f, recorded),
                    None => self.matcher.matches(request, recorded),
                };
                if matched {
                    assert(answers(self@, probe, i as int));
                    assert(is_hit(self@, probe, Some(i)));
                    return Some(i);
                }
            }
            i += 1;
        }
        assert(is_hit(self@, probe, None));
        None
    }

    /// The failure of a replay that found nothing, with what helps to see
    /// why.
    pub fn generate_no_match_error(&self, request: &LiveRequest, mode_description: &str) -> (e:
        VcrError)
        ensures
            e.kind == ErrorKind::NoMatch,
            e.status == 404,
            e.message@ == no_match_message(
                mode_description@,
                request@.method,
                request@.url,
                self@.interactions,
            ),
    {
        let message = no_match_text(
            mode_description,
            request.method.as_str(),
            request.url.as_str(),
            &self.cassette.interactions,
        );
        VcrError::new(ErrorKind::NoMatch, 404, message)
    }

    /// Answers from the record at `hit`, or fails where there is no hit.
    fn replay(&mut self, req: &LiveRequest, hit: Option<usize>, mode_description: &str) -> (step:
        Step)
        requires
            hit.is_some() ==> hit.unwrap() < old(self)@.interactions.len(),
        ensures
            replayed(old(self)@, req@, hit, mode_description@, step, final(self)@),
    {
        match hit {
            Some(index) => {
                self.used_interactions.insert(index);
                let response = self.cassette.interactions[index].response.to_response();
                assert(self@.interactions[index as int].response
                    == self.cassette.interactions@[index as int].response@);
                Step::Respond(response)
            },
            None => Step::Fail(self.generate_no_match_error(req, mode_description)),
        }
    }

    /// `Passthrough`: the transport is called and nothing is stored.
    pub fn handle_none_mode(&self) -> (step: Step)
        ensures
            step is Forward,
    {
        Step::Forward
    }

    /// `Record`: the transport is called and the outcome stored.
    pub fn handle_record_mode(&self) -> (step: Step)
        ensures
            step is ForwardAndRecord,
    {
        Step::ForwardAndRecord
    }

    /// `Replay`: the first interaction that answers is replayed and marked;
    /// where none answers the request fails.
    pub fn handle_replay_mode(&mut self, req: &LiveRequest, body_read: bool) -> (step: Step)
        ensures
            exists|probe: Probe, hit: Option<usize>|
                is_probe(old(self)@, req@, body_read, probe) && is_hit(old(self)@, probe, hit)
                    && #[trigger] replayed_with(
                    old(self)@,
                    req@,
                    probe,
                    hit,
                    "Replay mode"@,
                    step,
                    final(self)@,
                ),
    {
        let hit = self.find_match(req, body_read);
        let ghost probe = choose|probe: Probe|
            is_probe(self@, req@, body_read, probe) && #[trigger] is_hit(self@, probe, hit);
        let step = self.replay(req, hit, "Replay mode");
        assert(replayed_with(old(self)@, req@, probe, hit, "Replay mode"@, step, self@));
        step
    }

    /// `Once`: the first interaction that answers is replayed and marked;
    /// where none answers, an empty cassette has the exchange recorded and
    /// any other has the request fail.
    pub fn handle_once_mode(&mut self, req: &LiveRequest, body_read: bool) -> (step: Step)
        ensures
            exists|probe: Probe, hit: Option<usize>|
                is_probe(old(self)@, req@, body_read, probe) && is_hit(old(self)@, probe, hit)
                    && #[trigger] once_with(old(self)@, req@, probe, hit, step, final(self)@),
    {
        let hit = self.find_match(req, body_read);
        let ghost probe = choose|probe: Probe|
            is_probe(self@, req@, body_read, probe) && #[trigger] is_hit(self@, probe, hit);
        let step = if hit.is_none() && self.cassette.is_empty() {
            Step::ForwardAndRecord
        } else {
            self.replay(req, hit, "Once mode")
        };
        assert(once_with(old(self)@, req@, probe, hit, step, self@));
        step
    }

    /// `Filter`: as `Replay`; no new request is let through.
    pub fn handle_filter_mode(&mut self, req: &LiveRequest, body_read: bool) -> (step: Step)
        ensures
            exists|probe: Probe, hit: Option<usize>|
                is_probe(old(self)@, req@, body_read, probe) && is_hit(old(self)@, probe, hit)
                    && #[trigger] replayed_with(
                    old(self)@,
                    req@,
                    probe,
                    hit,
                    "Filter mode - no new requests allowed"@,
                    step,
                    final(self)@,
                ),
    {
        let hit = self.find_match(req, body_read);
        let ghost probe = choose|probe: Probe|
            is_probe(self@, req@, body_read, probe) && #[trigger] is_hit(self@, probe, hit);
        let step = self.replay(req, hit, "Filter mode - no new requests allowed");
        assert(replayed_with(
            old(self)@,
            req@,
            probe,
            hit,
            "Filter mode - no new requests allowed"@,
            step,
            self@,
        ));
        step
    }

    /// Decides what is done about a request, by the mode. `body_read` says
    /// whether the body of the request could be read.
    pub fn send(&mut self, req: &LiveRequest, body_read: bool) -> (step: Step)
        ensures
            decided(old(self)@, req@, body_read, step, final(self)@),
    {
        match self.mode {
            VcrMode::Passthrough => self.handle_none_mode(),
            VcrMode::Record => self.handle_record_mode(),
            VcrMode::Replay => {
                let step = self.handle_replay_mode(req, body_read);
                proof {
                    let (probe, hit) = choose|probe: Probe, hit: Option<usize>|
                        is_probe(old(self)@, req@, body_read, probe) && is_hit(
                            old(self)@,
                            probe,
                            hit,
                        ) && #[trigger] replayed_with(
                            old(self)@,
                            req@,
                            probe,
                            hit,
                            "Replay mode"@,
                            step,
                            self@,
                        );
                    assert(consulted_with(old(self)@, req@, probe, hit, step, self@));
                }
                step
            },
            VcrMode::Once => {
                let step = self.handle_once_mode(req, body_read);
                proof {
                    let (probe, hit) = choose|probe: Probe, hit: Option<usize>|
                        is_probe(old(self)@, req@, body_read, probe) && is_hit(
                            old(self)@,
                            probe,
                            hit,
                        ) && #[trigger] once_with(old(self)@, req@, probe, hit, step, self@);
                    assert(consulted_with(old(self)@, req@, probe, hit, step, self@));
                }
                step
            },
            VcrMode::Filter => {
                let step = self.handle_filter_mode(req, body_read);
                proof {
                    let (probe, hit) = choose|probe: Probe, hit: Option<usize>|
                        is_probe(old(self)@, req@, body_read, probe) && is_hit(
                            old(self)@,
                            probe,
                            hit,
                        ) && #[trigger] replayed_with(
                            old(self)@,
                            req@,
                            probe,
                            hit,
                            "Filter mode - no new requests allowed"@,
                            step,
                            self@,
                        );
                    assert(consulted_with(old(self)@, req@, probe, hit, step, self@));
                }
                step
            },
        }
    }

    /// Stores an exchange that the transport has performed and returns the
    /// response for the caller. What is returned is the response of the
    /// transport, whatever the filters do; what is stored has passed the
    /// filters.
    pub fn record_and_return_response(
        &mut self,
        req_for_recording: LiveRequest,
        response: LiveResponse,
    ) -> (out: LiveResponse)
        ensures
            out@ == pristine(response@),
            exists|request: RequestView, stored: crate::serializable::ResponseView|
                chain_request_outcome(
                    old(self)@.filters,
                    old(self)@.filters.len(),
                    stored_request(req_for_recording@),
                    request,
                ) && chain_response_outcome(
                    old(self)@.filters,
                    old(self)@.filters.len(),
                    stored_response(pristine(response@)),
                    stored,
                ) && final(self)@ == #[trigger] recorded(old(self)@, request, stored),
    {
        let body = match response.body {
            Some(b) => if b.as_str().is_empty() {
                None
            } else {
                Some(b)
            },
            None => None,
        };
        let return_response = LiveResponse {
            status: response.status,
            headers: response.headers,
            body,
            version: response.version,
        };
        let mut serializable_request = SerializableRequest::from_request(req_for_recording);
        let mut serializable_response = SerializableResponse::from_response(return_response.clone());
        self.filter_chain.filter_request(&mut serializable_request);
        self.filter_chain.filter_response(&mut serializable_response);
        if self.mode == VcrMode::Record {
            if !self.recording_started {
                self.cassette.clear();
                self.recording_started = true;
            }
        }
        let ghost request = serializable_request@;
        let ghost stored = serializable_response@;
        let _ = self.cassette.record_interaction(serializable_request, serializable_response);
        assert(self@.interactions =~= recorded(old(self)@, request, stored).interactions);
        assert(self@ == recorded(old(self)@, request, stored));
        return_response
    }

    /// Runs the filters over every recorded interaction.
    pub fn apply_filters_to_cassette(&mut self) -> (r: Result<(), VcrError>)
        ensures
            r.is_ok(),
            refiltered(old(self)@.filters, old(self)@.interactions, final(self)@.interactions),
            final(self)@ == (ClientView { interactions: final(self)@.interactions, ..old(self)@ }),
    {
        filter_interactions(&mut self.cassette.interactions, &self.filter_chain);
        Ok(())
    }

    /// What has to be written to save the cassette in its shape. Fails
    /// where the cassette has no path.
    pub fn save_cassette(&self) -> (r: Result<SavePlan, VcrError>)
        ensures
            is_save_plan(self@.interactions, self@.path.is_some(), self@.format, r),
    {
        self.cassette.save_plan()
    }

    /// Runs the filters over every recorded interaction and says what has to
    /// be written to save the result.
    pub fn filter_and_save_cassette(&mut self) -> (r: Result<SavePlan, VcrError>)
        ensures
            refiltered(old(self)@.filters, old(self)@.interactions, final(self)@.interactions),
            final(self)@ == (ClientView { interactions: final(self)@.interactions, ..old(self)@ }),
            is_save_plan(final(self)@.interactions, final(self)@.path.is_some(), final(self)@.format, r),
    {
        let _ = self.apply_filters_to_cassette();
        self.save_cassette()
    }

    /// Whether the cassette is saved when the client goes away: in a mode
    /// that records, and only if the cassette has changed since it was
    /// loaded.
    pub fn saves_on_drop(&self) -> (save: bool)
        ensures
            save == ((self@.mode == VcrMode::Record || self@.mode == VcrMode::Once)
                && self@.modified),
    {
        (self.mode == VcrMode::Record || self.mode == VcrMode::Once)
            && self.cassette.modified_since_load
    }
}

/// `replayed`, with the probe that was compared.
pub open spec fn replayed_with<C, M: RequestMatcher + ?Sized, T: Filter + ?Sized>(
    before: ClientView<C, M, T>,
    req: LiveRequestView,
    probe: Probe,
    hit: Option<usize>,
    description: Seq<char>,
    step: Step,
    after: ClientView<C, M, T>,
) -> bool {
    replayed(before, req, hit, description, step, after)
}

/// What `Once` decides, with the probe that was compared.
pub open spec fn once_with<C, M: RequestMatcher + ?Sized, T: Filter + ?Sized>(
    before: ClientView<C, M, T>,
    req: LiveRequestView,
    probe: Probe,
    hit: Option<usize>,
    step: Step,
    after: ClientView<C, M, T>,
) -> bool {
    if hit.is_none() && before.interactions.len() == 0 {
        step is ForwardAndRecord && after == before
    } else {
        replayed(before, req, hit, "Once mode"@, step, after)
    }
}

/// Whether `after` is `before` with every request and every response run
/// through the filters.
pub open spec fn refiltered<T: Filter + ?Sized>(
    filters: Seq<Box<T>>,
    before: Seq<InteractionView>,
    after: Seq<InteractionView>,
) -> bool {
    &&& after.len() == before.len()
    &&& forall|k: int|
        0 <= k < before.len() ==> chain_request_outcome(
            filters,
            filters.len(),
            before[k].request,
            (#[trigger] after[k]).request,
        ) && chain_response_outcome(filters, filters.len(), before[k].response, after[k].response)
}

/// Runs a chain of filters over every interaction of a list.
pub fn filter_interactions<T: Filter + ?Sized>(
    interactions: &mut Vec<Interaction>,
    filter_chain: &FilterChain<T>,
)
    ensures
        refiltered(
            filter_chain@,
            crate::cassette::interactions_view(old(interactions)@),
            crate::cassette::interactions_view(final(interactions)@),
        ),
{
    let ghost before = crate::cassette::interactions_view(interactions@);
    let mut out: Vec<Interaction> = Vec::new();
    let mut i: usize = 0;
    while i < interactions.len()
        invariant
            i <= interactions.len(),
            out.len() == i,
            interactions@ == old(interactions)@,
            before == crate::cassette::interactions_view(interactions@),
            forall|k: int|
                0 <= k < i ==> chain_request_outcome(
                    filter_chain@,
                    filter_chain@.len(),
                    before[k].request,
                    (#[trigger] out@[k])@.request,
                ) && chain_response_outcome(
                    filter_chain@,
                    filter_chain@.len(),
                    before[k].response,
                    out@[k]@.response,
                ),
        decreases interactions.len() - i,
    {
        let mut interaction = interactions[i].clone();
        filter_chain.filter_request(&mut interaction.request);
        filter_chain.filter_response(&mut interaction.response);
        out.push(interaction);
        i += 1;
    }
    *interactions = out;
}

} // verus!
