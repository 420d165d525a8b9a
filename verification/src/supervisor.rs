//! The supervisor: the entry points that a transport layer calls.
//!
//! Each entry point comes in two forms. The `handle_*` functions and `sweep`
//! call the media engine adapter themselves. Beside each stands the function
//! that takes what the adapter returned as an argument and commits it to the
//! store in one step; its contract is exact, over [`SupervisorView`].

use crate::adapter::{AdapterCall, AdapterHandle, MediaEngineAdapter};
use crate::error::{failure, AdapterError, ErrorKind, NegotiationError};
use crate::sdp::{is_valid_offer, well_formed_offer};
use crate::session::{
    answer_view, applied_view, Message, MessageView, Session, SessionState, SessionView,
    EMPTY_ANSWER,
};
use crate::store::{session_views, SessionStore, StoreView};
use vstd::prelude::*;

verus! {

/// The reason recorded for a session that was closed on request.
pub const CLIENT_CLOSE: &'static str = "client_close";

/// The reason recorded for a session that a sweep found idle for too long.
pub const IDLE_TIMEOUT: &'static str = "idle_timeout";

/// The message with which a request to close reaches a session.
pub open spec fn close_message() -> MessageView {
    MessageView::Close { reason: CLIENT_CLOSE@ }
}

/// The message with which a sweep fails an expired session.
pub open spec fn idle_timeout_message() -> MessageView {
    MessageView::Fail { error: IDLE_TIMEOUT@ }
}

/// The message that hands an offer and the adapter's answer to the engine.
pub open spec fn offer_message(sdp: Seq<char>, answer: Result<Seq<char>, Seq<char>>)
    -> MessageView {
    MessageView::Offer { sdp, answer }
}

/// The message that hands a candidate and the adapter's word on it to the
/// engine.
pub open spec fn candidate_message(candidate: Seq<char>, applied: Result<(), Seq<char>>)
    -> MessageView {
    MessageView::Candidate { candidate, applied }
}

/// The message of the failure that an adapter answer stands for: the
/// adapter's own, or that of an empty answer.
pub open spec fn answer_failure(answer: Result<Seq<char>, Seq<char>>) -> Seq<char> {
    match answer {
        Ok(_) => EMPTY_ANSWER@,
        Err(message) => message,
    }
}

/// The calls that tear down each of `sessions`, in their order.
pub open spec fn teardowns(sessions: Seq<SessionView>) -> Seq<AdapterCall> {
    sessions.map_values(|s: SessionView| AdapterCall::Teardown { session_id: s.id })
}

/// What the adapter answered to an offer, as the result of handling the
/// offer shows it: the answer that was returned, or the failure that the error
/// wraps.
pub open spec fn answer_seen(result: Result<(u64, String), NegotiationError>) -> Result<
    Seq<char>,
    Seq<char>,
> {
    match result {
        Ok((_, text)) => Ok(text@),
        Err(NegotiationError::Adapter(cause)) => Err(cause.message@),
        Err(_) => Err(Seq::empty()),
    }
}

/// What the adapter said on applying a candidate, as the result of handling
/// the candidate shows it.
pub open spec fn applied_seen(result: Result<(), NegotiationError>) -> Result<(), Seq<char>> {
    match result {
        Err(NegotiationError::Adapter(cause)) => Err(cause.message@),
        _ => Ok(()),
    }
}

/// The model of a [`Supervisor`].
pub struct SupervisorView {
    pub store: StoreView,
    /// The identifier that the next session gets. Every identifier given out
    /// so far lies below it.
    pub next_id: u64,
    /// The idle time after which a sweep removes a session.
    pub ttl: u64,
}

impl SupervisorView {
    /// The supervisor that `Supervisor::new` makes.
    pub open spec fn fresh(ttl: u64) -> SupervisorView {
        SupervisorView { store: StoreView::empty(), next_id: 0, ttl }
    }

    /// The invariant of a supervisor: its store is well-formed; every stored
    /// identifier was given out by it; and every stored session has taken its
    /// offer, so that a session that awaits its offer is never seen.
    pub open spec fn wf(self) -> bool {
        &&& self.store.wf()
        &&& forall|i: int|
            0 <= i < self.store.sessions.len() ==> {
                &&& (#[trigger] self.store.sessions[i]).id < self.next_id
                &&& !(self.store.sessions[i].state is AwaitingOffer)
            }
    }

    /// Whether an offer can be taken at all, and the error if not: the offer
    /// is malformed, or no identifier is left for a new session.
    pub open spec fn offer_refusal(self, sdp: Seq<char>) -> Option<ErrorKind> {
        if !well_formed_offer(sdp) {
            Some(ErrorKind::InvalidOffer)
        } else if self.next_id == u64::MAX {
            Some(ErrorKind::DuplicateSession)
        } else {
            None
        }
    }

    /// The error with which an offer is answered, given what the adapter
    /// returned for it.
    pub open spec fn offer_verdict(self, sdp: Seq<char>, answer: Result<Seq<char>, Seq<char>>)
        -> Option<ErrorKind> {
        if self.offer_refusal(sdp) is Some {
            self.offer_refusal(sdp)
        } else if answer matches Ok(text) && text.len() > 0 {
            None
        } else {
            Some(ErrorKind::Adapter)
        }
    }

    /// The supervisor after an offer, given what the adapter returned for it.
    /// A refused offer changes nothing. Otherwise a session is created under
    /// the next identifier and takes the offer with the adapter's answer.
    pub open spec fn after_offer(
        self,
        sdp: Seq<char>,
        answer: Result<Seq<char>, Seq<char>>,
        now: u64,
    ) -> SupervisorView {
        if self.offer_refusal(sdp) is Some {
            self
        } else {
            SupervisorView {
                store: self.store.with_new(self.next_id, now).with_message(
                    self.next_id,
                    offer_message(sdp, answer),
                    now,
                ),
                next_id: (self.next_id + 1) as u64,
                ..self
            }
        }
    }

    /// The calls that handling an offer makes to the adapter, given what the
    /// adapter returned: none for a refused offer; else the request for an
    /// answer, followed by the teardown of the new session where it failed.
    pub open spec fn offer_calls(self, sdp: Seq<char>, answer: Result<Seq<char>, Seq<char>>)
        -> Seq<AdapterCall> {
        if self.offer_refusal(sdp) is Some {
            Seq::empty()
        } else if self.offer_verdict(sdp, answer) is None {
            seq![AdapterCall::SynthesizeAnswer { remote_sdp: sdp }]
        } else {
            seq![
                AdapterCall::SynthesizeAnswer { remote_sdp: sdp },
                AdapterCall::Teardown { session_id: self.next_id },
            ]
        }
    }

    /// The error with which `message` for session `id` is answered.
    pub open spec fn verdict(self, id: u64, message: MessageView) -> Option<ErrorKind> {
        self.store.verdict(id, message)
    }

    /// The supervisor after session `id` has handled `message`.
    pub open spec fn after(self, id: u64, message: MessageView, now: u64) -> SupervisorView {
        SupervisorView { store: self.store.with_message(id, message, now), ..self }
    }

    /// Whether session `id` takes a candidate at all, and the error if not:
    /// there is no such session, or its state does not admit candidates.
    pub open spec fn candidate_refusal(self, id: u64) -> Option<ErrorKind> {
        if !self.store.contains(id) {
            Some(ErrorKind::SessionNotFound)
        } else if !self.store.session(id).state.accepts_candidates() {
            Some(ErrorKind::InvalidState)
        } else {
            None
        }
    }

    /// The calls that handling a candidate makes to the adapter, given the
    /// adapter's word on applying it: none for a refused candidate; else the
    /// request to apply it, followed by the teardown of the session where the
    /// adapter failed.
    pub open spec fn candidate_calls(
        self,
        id: u64,
        candidate: Seq<char>,
        applied: Result<(), Seq<char>>,
    ) -> Seq<AdapterCall> {
        if self.candidate_refusal(id) is Some {
            Seq::empty()
        } else if applied is Ok {
            seq![AdapterCall::ApplyCandidate { session_id: id, candidate }]
        } else {
            seq![
                AdapterCall::ApplyCandidate { session_id: id, candidate },
                AdapterCall::Teardown { session_id: id },
            ]
        }
    }

    /// The supervisor after a request to close session `id`.
    pub open spec fn after_close(self, id: u64, now: u64) -> SupervisorView {
        self.after(id, close_message(), now)
    }

    /// The calls that ending session `id` makes to the adapter: its teardown
    /// where the session is active, none where it is unknown or has ended.
    pub open spec fn ending_calls(self, id: u64) -> Seq<AdapterCall> {
        if self.store.is_active(id) {
            seq![AdapterCall::Teardown { session_id: id }]
        } else {
            Seq::empty()
        }
    }

    /// The sessions that a sweep at `now` removes, as it hands them back:
    /// those that were still active have failed for idling.
    pub open spec fn swept(self, now: u64) -> Seq<SessionView> {
        self.store.expired(now, self.ttl).map_values(
            |s: SessionView| s.next(idle_timeout_message(), now),
        )
    }

    /// The supervisor after a sweep at `now`.
    pub open spec fn after_sweep(self, now: u64) -> SupervisorView {
        SupervisorView { store: self.store.unexpired(now, self.ttl), ..self }
    }

    /// The calls that a sweep at `now` makes to the adapter: the teardown of
    /// every session that it removes, in the order of their creation.
    pub open spec fn sweep_calls(self, now: u64) -> Seq<AdapterCall> {
        teardowns(self.swept(now))
    }

    /// A message that is rejected for the session's absence or state changes
    /// nothing.
    pub proof fn lemma_rejected(self, id: u64, message: MessageView, now: u64)
        requires
            self.wf(),
            self.verdict(id, message) == Some(ErrorKind::SessionNotFound) || self.verdict(
                id,
                message,
            ) == Some(ErrorKind::InvalidState),
        ensures
            self.after(id, message, now) == self,
    {
        if self.store.contains(id) {
            let p = self.store.position(id);
            assert(self.store.holds_at(id, p));
            assert(self.after(id, message, now).store.sessions =~= self.store.sessions);
        }
    }

    /// Handling a message keeps the invariant.
    pub proof fn lemma_after_wf(self, id: u64, message: MessageView, now: u64)
        requires
            self.wf(),
        ensures
            self.after(id, message, now).wf(),
    {
        self.store.lemma_with_message(id, message, now, id);
        if self.store.contains(id) {
            let p = self.store.position(id);
            assert(self.store.holds_at(id, p));
            let after = self.after(id, message, now);
            assert forall|i: int| 0 <= i < after.store.sessions.len() implies {
                &&& (#[trigger] after.store.sessions[i]).id < after.next_id
                &&& !(after.store.sessions[i].state is AwaitingOffer)
            } by {
                assert(self.store.sessions[i].id < self.next_id);
            }
        }
    }

    /// Taking an offer keeps the invariant, and the identifier that the new
    /// session gets was not in use.
    pub proof fn lemma_after_offer_wf(
        self,
        sdp: Seq<char>,
        answer: Result<Seq<char>, Seq<char>>,
        now: u64,
    )
        requires
            self.wf(),
        ensures
            self.after_offer(sdp, answer, now).wf(),
            !self.store.contains(self.next_id),
    {
        let id = self.next_id;
        if self.store.contains(id) {
            let p = self.store.position(id);
            assert(self.store.holds_at(id, p));
            assert(self.store.sessions[p].id < self.next_id);
        }
        if self.offer_refusal(sdp) is None {
            let message = offer_message(sdp, answer);
            let created = self.store.with_new(id, now);
            let after = self.after_offer(sdp, answer, now);
            self.store.lemma_with_new(id, now, id);
            created.lemma_with_message(id, message, now, id);
            let n = self.store.sessions.len() as int;
            assert(created.holds_at(id, n));
            created.lemma_position(id, n);
            assert forall|i: int| 0 <= i < after.store.sessions.len() implies {
                &&& (#[trigger] after.store.sessions[i]).id < after.next_id
                &&& !(after.store.sessions[i].state is AwaitingOffer)
            } by {
                if i < n {
                    assert(self.store.sessions[i].id < self.next_id);
                }
            }
        }
    }

    /// A sweep keeps the invariant.
    pub proof fn lemma_after_sweep_wf(self, now: u64)
        requires
            self.wf(),
        ensures
            self.after_sweep(now).wf(),
    {
        let after = self.after_sweep(now);
        self.store.lemma_sweep(now, self.ttl, 0);
        assert forall|i: int| 0 <= i < after.store.sessions.len() implies {
            &&& (#[trigger] after.store.sessions[i]).id < after.next_id
            &&& !(after.store.sessions[i].state is AwaitingOffer)
        } by {
            let id = after.store.sessions[i].id;
            assert(after.store.holds_at(id, i));
            after.store.lemma_position(id, i);
            self.store.lemma_sweep(now, self.ttl, id);
            let p = self.store.position(id);
            assert(self.store.holds_at(id, p));
            assert(self.store.sessions[p].id < self.next_id);
        }
    }
}

/// Owns the sessions and their lifetime: creation, idle expiry and close.
#[derive(Debug)]
pub struct Supervisor {
    store: SessionStore,
    next_id: u64,
    ttl: u64,
}

impl View for Supervisor {
    type V = SupervisorView;

    closed spec fn view(&self) -> SupervisorView {
        SupervisorView { store: self.store@, next_id: self.next_id, ttl: self.ttl }
    }
}

impl Supervisor {
    /// The invariant, which holds of every supervisor at all times.
    #[verifier::type_invariant]
    pub open spec fn wf(&self) -> bool {
        self@.wf()
    }

    /// A supervisor without sessions, whose sweeps remove a session once it
    /// has been idle for `ttl`.
    pub fn new(ttl: u64) -> (supervisor: Supervisor)
        ensures
            supervisor.wf(),
            supervisor@ == SupervisorView::fresh(ttl),
    {
        Supervisor { store: SessionStore::new(), next_id: 0, ttl }
    }

    /// A supervisor without sessions that gives out identifiers from
    /// `first_id` on, so that identifiers given out earlier, below it, are
    /// not given out again.
    pub fn starting_at(first_id: u64, ttl: u64) -> (supervisor: Supervisor)
        ensures
            supervisor.wf(),
            supervisor@ == (SupervisorView { next_id: first_id, ..SupervisorView::fresh(ttl) }),
    {
        Supervisor { store: SessionStore::new(), next_id: first_id, ttl }
    }

    /// The idle time after which a sweep removes a session.
    pub fn ttl(&self) -> (ttl: u64)
        ensures
            ttl == self@.ttl,
    {
        self.ttl
    }

    /// The identifier that the next session gets.
    pub fn next_session_id(&self) -> (id: u64)
        ensures
            id == self@.next_id,
    {
        self.next_id
    }

    /// The number of sessions held, those that ended and await the sweep
    /// included.
    pub fn session_count(&self) -> (n: usize)
        ensures
            n == self@.store.sessions.len(),
    {
        self.store.len()
    }

    /// The session with identifier `id`; `SessionNotFound` where there is
    /// none.
    pub fn session(&self, id: u64) -> (result: Result<&Session, NegotiationError>)
        ensures
            result is Ok <==> self@.store.contains(id),
            result matches Ok(session) ==> session@ == self@.store.session(id) && session.wf(),
            result matches Err(e) ==> e == NegotiationError::SessionNotFound,
    {
        self.store.get(id)
    }

    /// Takes the store out and leaves an empty one, for a change that is put
    /// back in one step.
    fn take_store(&mut self) -> (store: SessionStore)
        ensures
            store@ == old(self)@.store,
            final(self)@ == (SupervisorView { store: StoreView::empty(), ..old(self)@ }),
    {
        let mut store = SessionStore::new();
        core::mem::swap(&mut self.store, &mut store);
        store
    }

    /// Whether an offer can be taken, before the adapter is asked for an
    /// answer: `InvalidOffer` for a malformed offer, `DuplicateSession` where
    /// no identifier is left.
    pub fn check_offer(&self, sdp: &str) -> (result: Result<(), NegotiationError>)
        ensures
            failure(result) == self@.offer_refusal(sdp@),
    {
        if !is_valid_offer(sdp) {
            Err(NegotiationError::InvalidOffer)
        } else if self.next_id == u64::MAX {
            Err(NegotiationError::DuplicateSession)
        } else {
            Ok(())
        }
    }

    /// Commits an offer, given the adapter's `answer` to it. A refused offer
    /// changes nothing. Otherwise a session is created; with a non-empty
    /// answer it awaits connectivity, and its identifier and the answer are
    /// returned. With an empty answer or an adapter failure the session has
    /// failed, the error wraps the failure, and the adapter is to tear down
    /// the session whose identifier was next.
    pub fn accept_offer(
        &mut self,
        sdp: &str,
        answer: Result<String, AdapterError>,
        now: u64,
    ) -> (result: Result<(u64, String), NegotiationError>)
        ensures
            final(self).wf(),
            final(self)@ == old(self)@.after_offer(sdp@, answer_view(answer), now),
            failure(result) == old(self)@.offer_verdict(sdp@, answer_view(answer)),
            result matches Ok((id, text)) ==> id == old(self)@.next_id,
            result matches Ok((id, text)) ==> answer matches Ok(given) && given@ == text@,
            result matches Err(NegotiationError::Adapter(e)) ==> e.message@ == answer_failure(
                answer_view(answer),
            ),
    {
        proof {
            use_type_invariant(&*self);
        }
        match self.check_offer(sdp) {
            Err(e) => Err(e),
            Ok(_) => self.commit_offer(sdp, answer, now),
        }
    }

    /// Creates the session for an offer that is not refused, and has it take
    /// the offer with the adapter's answer.
    fn commit_offer(
        &mut self,
        sdp: &str,
        answer: Result<String, AdapterError>,
        now: u64,
    ) -> (result: Result<(u64, String), NegotiationError>)
        requires
            old(self)@.offer_refusal(sdp@) is None,
        ensures
            final(self).wf(),
            final(self)@ == old(self)@.after_offer(sdp@, answer_view(answer), now),
            failure(result) == old(self)@.offer_verdict(sdp@, answer_view(answer)),
            result matches Ok((id, text)) ==> id == old(self)@.next_id,
            result matches Ok((id, text)) ==> answer matches Ok(given) && given@ == text@,
            result matches Err(NegotiationError::Adapter(e)) ==> e.message@ == answer_failure(
                answer_view(answer),
            ),
    {
        let id = self.next_id;
        let reply = match &answer {
            Ok(text) => text.clone(),
            Err(_) => String::new(),
        };
        proof {
            use_type_invariant(&*self);
            old(self)@.lemma_after_offer_wf(sdp@, answer_view(answer), now);
            old(self)@.store.lemma_with_new(id, now, id);
            old(self)@.store.with_new(id, now).lemma_with_message(
                id,
                offer_message(sdp@, answer_view(answer)),
                now,
                id,
            );
        }
        let mut store = self.take_store();
        let created = store.create(id, now);
        assert(created is Ok);
        let message = Message::Offer { sdp: sdp.to_owned(), answer };
        let outcome = store.update(id, message, now);
        self.next_id = id + 1;
        self.store = store;
        match outcome {
            Ok(_) => Ok((id, reply)),
            Err(e) => Err(e),
        }
    }

    /// Takes an offer: checks it, asks the adapter for an answer, and commits
    /// what came back. A refused offer never reaches the adapter and changes
    /// nothing. Otherwise the adapter is asked once, and it decides: on
    /// success the new session awaits connectivity with the returned answer,
    /// which is not empty; on failure the session has failed, the adapter was
    /// told to tear it down, and the error wraps the failure.
    pub fn handle_offer<A: MediaEngineAdapter>(
        &mut self,
        adapter: &mut AdapterHandle<A>,
        sdp: &str,
        now: u64,
    ) -> (result: Result<(u64, String), NegotiationError>)
        ensures
            final(self).wf(),
            final(self)@ == old(self)@.after_offer(sdp@, answer_seen(result), now),
            failure(result) == old(self)@.offer_verdict(sdp@, answer_seen(result)),
            final(adapter).calls() == old(adapter).calls() + old(self)@.offer_calls(
                sdp@,
                answer_seen(result),
            ),
            result matches Ok((id, text)) ==> id == old(self)@.next_id && text@.len() > 0,
            result matches Ok((id, text)) ==> final(self)@.store.contains(id),
            result matches Ok((id, text)) ==> final(self)@.store.session(id).state
                == SessionState::AwaitingAnswerSent,
            result matches Ok((id, text)) ==> final(self)@.store.session(id).local_sdp == Some(
                text@,
            ),
            result matches Ok((id, text)) ==> final(self)@.store.session(id).remote_sdp == Some(
                sdp@,
            ),
    {
        proof {
            use_type_invariant(&*self);
        }
        match self.check_offer(sdp) {
            Err(e) => {
                proof {
                    assert(adapter.calls() + Seq::<AdapterCall>::empty() =~= adapter.calls());
                }
                return Err(e);
            },
            Ok(_) => {},
        }
        let id = self.next_id;
        let answer = adapter.synthesize_answer(sdp);
        let result = self.commit_offer(sdp, answer, now);
        proof {
            old(self)@.lemma_after_offer_wf(sdp@, answer_view(answer), now);
            old(self)@.store.lemma_with_new(id, now, id);
            old(self)@.store.with_new(id, now).lemma_with_message(
                id,
                offer_message(sdp@, answer_view(answer)),
                now,
                id,
            );
        }
        match &result {
            Err(NegotiationError::Adapter(_)) => {
                adapter.teardown(id);
            },
            _ => {},
        }
        proof {
            assert(adapter.calls() =~= old(adapter).calls() + old(self)@.offer_calls(
                sdp@,
                answer_seen(result),
            ));
        }
        result
    }

    /// Whether session `id` takes candidates at present, before the adapter
    /// is asked to apply one: `SessionNotFound` for an unknown session,
    /// `InvalidState` for one whose state does not admit candidates.
    pub fn check_candidate(&self, id: u64) -> (result: Result<(), NegotiationError>)
        ensures
            failure(result) == self@.candidate_refusal(id),
    {
        match self.store.get(id) {
            Ok(session) => session.check_candidate(),
            Err(e) => Err(e),
        }
    }

    /// Commits a candidate for session `id`, given the adapter's word on
    /// applying it. Where the session is unknown or does not take candidates,
    /// nothing changes. Otherwise, where the adapter applied the candidate, it
    /// is appended unless it was received before; where the adapter failed,
    /// the session has failed, the error wraps the failure, and the adapter is
    /// to tear the session down.
    pub fn accept_candidate(
        &mut self,
        id: u64,
        candidate: &str,
        applied: Result<(), AdapterError>,
        now: u64,
    ) -> (result: Result<(), NegotiationError>)
        ensures
            final(self).wf(),
            final(self)@ == old(self)@.after(
                id,
                candidate_message(candidate@, applied_view(applied)),
                now,
            ),
            failure(result) == old(self)@.verdict(
                id,
                candidate_message(candidate@, applied_view(applied)),
            ),
            result matches Err(NegotiationError::Adapter(e)) ==> applied matches Err(given)
                && given.message@ == e.message@,
            result is Ok ==> final(self)@.store.contains(id) && final(self)@.store.session(
                id,
            ).candidates.contains(candidate@),
            old(self)@.store.contains(id) ==> old(self)@.store.session(id).candidates.is_prefix_of(
                final(self)@.store.session(id).candidates,
            ),
    {
        proof {
            use_type_invariant(&*self);
            old(self)@.lemma_after_wf(
                id,
                candidate_message(candidate@, applied_view(applied)),
                now,
            );
            old(self)@.store.lemma_with_message(
                id,
                candidate_message(candidate@, applied_view(applied)),
                now,
                id,
            );
        }
        proof {
            if old(self)@.store.contains(id) {
                old(self)@.store.session(id).lemma_candidates_with(candidate@, candidate@);
                old(self)@.store.session(id).lemma_next_wf(
                    candidate_message(candidate@, applied_view(applied)),
                    now,
                );
            }
        }
        let message = Message::Candidate { candidate: candidate.to_owned(), applied };
        let mut store = self.take_store();
        let result = store.update(id, message, now);
        self.store = store;
        result
    }

    /// Takes a remote candidate for session `id`: checks the session, asks
    /// the adapter to apply the candidate, and commits what came back. An
    /// unknown session gives `SessionNotFound` and one that takes no
    /// candidates `InvalidState`; neither reaches the adapter or changes
    /// anything. Otherwise the candidate is forwarded to the adapter once,
    /// whether it was received before or not, and the adapter decides: on
    /// success the candidate is appended unless it was received before; on
    /// failure the session has failed, the adapter was told to tear it down,
    /// and the error wraps the failure.
    pub fn handle_candidate<A: MediaEngineAdapter>(
        &mut self,
        adapter: &mut AdapterHandle<A>,
        id: u64,
        candidate: &str,
        now: u64,
    ) -> (result: Result<(), NegotiationError>)
        ensures
            final(self).wf(),
            final(self)@ == old(self)@.after(
                id,
                candidate_message(candidate@, applied_seen(result)),
                now,
            ),
            failure(result) == old(self)@.verdict(
                id,
                candidate_message(candidate@, applied_seen(result)),
            ),
            final(adapter).calls() == old(adapter).calls() + old(self)@.candidate_calls(
                id,
                candidate@,
                applied_seen(result),
            ),
            result is Ok ==> final(self)@.store.contains(id) && final(self)@.store.session(
                id,
            ).candidates.contains(candidate@),
            old(self)@.store.contains(id) ==> old(self)@.store.session(id).candidates.is_prefix_of(
                final(self)@.store.session(id).candidates,
            ),
    {
        proof {
            use_type_invariant(&*self);
        }
        match self.check_candidate(id) {
            Err(e) => {
                proof {
                    assert(adapter.calls() + Seq::<AdapterCall>::empty() =~= adapter.calls());
                    old(self)@.lemma_rejected(id, candidate_message(candidate@, Ok(())), now);
                }
                return Err(e);
            },
            Ok(_) => {},
        }
        let applied = adapter.apply_candidate(id, candidate);
        let result = self.accept_candidate(id, candidate, applied, now);
        match &result {
            Err(NegotiationError::Adapter(_)) => {
                adapter.teardown(id);
            },
            _ => {},
        }
        proof {
            assert(adapter.calls() =~= old(adapter).calls() + old(self)@.candidate_calls(
                id,
                candidate@,
                applied_seen(result),
            ));
        }
        result
    }

    /// Records the adapter's report that the transport of session `id` is
    /// established.
    pub fn handle_connected(&mut self, id: u64, now: u64) -> (result: Result<(), NegotiationError>)
        ensures
            final(self).wf(),
            final(self)@ == old(self)@.after(id, MessageView::Connected, now),
            failure(result) == old(self)@.verdict(id, MessageView::Connected),
            result is Ok ==> final(self)@.store.contains(id) && final(self)@.store.session(
                id,
            ).state == SessionState::Connected,
    {
        proof {
            use_type_invariant(&*self);
            old(self)@.lemma_after_wf(id, MessageView::Connected, now);
            old(self)@.store.lemma_with_message(id, MessageView::Connected, now, id);
        }
        let mut store = self.take_store();
        let result = store.update(id, Message::Connected, now);
        self.store = store;
        result
    }

    /// Closes session `id`. Returns whether this call ended it, in which case
    /// the adapter is to tear it down. For an unknown session and for one
    /// that had ended already nothing changes.
    pub fn close_session(&mut self, id: u64, now: u64) -> (ended: bool)
        ensures
            final(self).wf(),
            final(self)@ == old(self)@.after_close(id, now),
            ended == old(self)@.store.is_active(id),
            !final(self)@.store.is_active(id),
    {
        proof {
            use_type_invariant(&*self);
            old(self)@.lemma_after_wf(id, close_message(), now);
            old(self)@.store.lemma_with_message(id, close_message(), now, id);
        }
        let active = match self.store.get(id) {
            Ok(session) => !session.state().is_terminal(),
            Err(_) => false,
        };
        let mut store = self.take_store();
        let _ = store.update(id, Message::Close { reason: CLIENT_CLOSE.to_owned() }, now);
        self.store = store;
        active
    }

    /// Closes session `id` and has the adapter tear it down. It succeeds
    /// whatever the identifier: for an unknown session and for one that had
    /// ended already it does nothing, and the adapter is not called.
    pub fn handle_close<A: MediaEngineAdapter>(
        &mut self,
        adapter: &mut AdapterHandle<A>,
        id: u64,
        now: u64,
    )
        ensures
            final(self).wf(),
            final(self)@ == old(self)@.after_close(id, now),
            !final(self)@.store.is_active(id),
            final(adapter).calls() == old(adapter).calls() + old(self)@.ending_calls(id),
    {
        if self.close_session(id, now) {
            adapter.teardown(id);
        }
        proof {
            assert(adapter.calls() =~= old(adapter).calls() + old(self)@.ending_calls(id));
        }
    }

    /// Fails session `id` for `error`. Returns whether this call ended it, in
    /// which case the adapter is to tear it down. For an unknown session and
    /// for one that had ended already nothing changes.
    pub fn fail_session(&mut self, id: u64, error: &str, now: u64) -> (ended: bool)
        ensures
            final(self).wf(),
            final(self)@ == old(self)@.after(id, MessageView::Fail { error: error@ }, now),
            ended == old(self)@.store.is_active(id),
            !final(self)@.store.is_active(id),
    {
        proof {
            use_type_invariant(&*self);
            old(self)@.lemma_after_wf(id, MessageView::Fail { error: error@ }, now);
            old(self)@.store.lemma_with_message(
                id,
                MessageView::Fail { error: error@ },
                now,
                id,
            );
        }
        let active = match self.store.get(id) {
            Ok(session) => !session.state().is_terminal(),
            Err(_) => false,
        };
        let mut store = self.take_store();
        let _ = store.update(id, Message::Fail { error: error.to_owned() }, now);
        self.store = store;
        active
    }

    /// Takes the adapter's report that session `id` failed beyond recovery:
    /// fails the session and has the adapter tear it down. For an unknown
    /// session and for one that had ended already it does nothing, and the
    /// adapter is not called.
    pub fn handle_failure<A: MediaEngineAdapter>(
        &mut self,
        adapter: &mut AdapterHandle<A>,
        id: u64,
        error: &str,
        now: u64,
    )
        ensures
            final(self).wf(),
            final(self)@ == old(self)@.after(id, MessageView::Fail { error: error@ }, now),
            !final(self)@.store.is_active(id),
            final(adapter).calls() == old(adapter).calls() + old(self)@.ending_calls(id),
    {
        if self.fail_session(id, error, now) {
            adapter.teardown(id);
        }
        proof {
            assert(adapter.calls() =~= old(adapter).calls() + old(self)@.ending_calls(id));
        }
    }

    /// Removes the sessions that have been idle for the supervisor's `ttl` or
    /// longer at `now`, and returns them in the order of their creation. Each
    /// one that was still active has failed with the reason `idle_timeout`
    /// before it is handed back. The adapter is to tear down every session
    /// returned.
    pub fn expire(&mut self, now: u64) -> (swept: Vec<Session>)
        ensures
            final(self).wf(),
            final(self)@ == old(self)@.after_sweep(now),
            session_views(swept@) == old(self)@.swept(now),
            forall|i: int|
                0 <= i < swept.len() ==> (#[trigger] swept[i]).wf() && swept[i]@.state.terminal(),
    {
        proof {
            use_type_invariant(&*self);
            old(self)@.lemma_after_sweep_wf(now);
        }
        let mut store = self.take_store();
        let mut swept = store.sweep_expired(now, self.ttl);
        self.store = store;
        let ghost expired = old(self)@.store.expired(now, self.ttl);
        let ghost before = swept@;
        let mut i: usize = 0;
        while i < swept.len()
            invariant
                i <= swept.len(),
                swept.len() == before.len(),
                session_views(before) == expired,
                forall|j: int| 0 <= j < swept.len() ==> (#[trigger] swept[j]).wf(),
                forall|j: int|
                    0 <= j < i ==> (#[trigger] swept[j])@ == expired[j].next(
                        idle_timeout_message(),
                        now,
                    ),
                forall|j: int| i <= j < swept.len() ==> (#[trigger] swept[j])@ == expired[j],
            decreases swept.len() - i,
        {
            assert(swept[i as int]@ == expired[i as int]);
            swept[i].fail(IDLE_TIMEOUT.to_owned(), now);
            i += 1;
        }
        proof {
            assert(session_views(swept@) =~= old(self)@.swept(now));
        }
        swept
    }

    /// Sweeps at `now`: removes the sessions that have been idle for the
    /// supervisor's `ttl` or longer, fails each one that was still active with
    /// the reason `idle_timeout`, has the adapter tear every one of them down,
    /// in the order of their creation, and returns them.
    pub fn sweep<A: MediaEngineAdapter>(
        &mut self,
        adapter: &mut AdapterHandle<A>,
        now: u64,
    ) -> (swept: Vec<Session>)
        ensures
            final(self).wf(),
            final(self)@ == old(self)@.after_sweep(now),
            session_views(swept@) == old(self)@.swept(now),
            forall|i: int|
                0 <= i < swept.len() ==> (#[trigger] swept[i]).wf() && swept[i]@.state.terminal(),
            final(adapter).calls() == old(adapter).calls() + old(self)@.sweep_calls(now),
    {
        let swept = self.expire(now);
        let ghost views = session_views(swept@);
        let mut i: usize = 0;
        proof {
            assert(teardowns(views.take(0)) =~= Seq::empty());
            assert(adapter.calls() + Seq::<AdapterCall>::empty() =~= adapter.calls());
        }
        while i < swept.len()
            invariant
                i <= swept.len(),
                views == session_views(swept@),
                adapter.calls() == old(adapter).calls() + teardowns(views.take(i as int)),
            decreases swept.len() - i,
        {
            let id = swept[i].id();
            adapter.teardown(id);
            proof {
                assert(views[i as int] == swept[i as int]@);
                assert(teardowns(views.take(i as int + 1)) =~= teardowns(views.take(i as int)).push(
                    AdapterCall::Teardown { session_id: id },
                ));
                assert(adapter.calls() =~= old(adapter).calls() + teardowns(
                    views.take(i as int + 1),
                ));
            }
            i += 1;
        }
        proof {
            assert(views.take(swept.len() as int) =~= views);
        }
        swept
    }
}

} // verus!
