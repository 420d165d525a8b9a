//! The laws of the negotiation, proved over the models of the session, the
//! store and the supervisor.
//!
//! The executable functions are proved to compute the model functions that
//! these laws speak of, so each law holds of the running code as well.

use crate::adapter::AdapterCall;
use crate::error::ErrorKind;
use crate::sdp::well_formed_offer;
use crate::session::{MessageView, SessionState, SessionView};
use crate::store::StoreView;
use crate::supervisor::{
    candidate_message, close_message, idle_timeout_message, offer_message, SupervisorView,
    IDLE_TIMEOUT,
};
use crate::transport::{
    decimal_text, lemma_decimal_text, lemma_text_is_decimal, session_id_of,
};
use vstd::prelude::*;

verus! {

/// One step of a supervisor, as the model sees it.
pub enum Step {
    /// An offer, with what the adapter answered.
    Offer { sdp: Seq<char>, answer: Result<Seq<char>, Seq<char>> },
    /// A message for the session with identifier `id`.
    Message { id: u64, message: MessageView },
    /// A sweep of the idle sessions.
    Sweep,
}

/// The supervisor after `step` was taken at `now`.
pub open spec fn after_step(supervisor: SupervisorView, step: Step, now: u64) -> SupervisorView {
    match step {
        Step::Offer { sdp, answer } => supervisor.after_offer(sdp, answer, now),
        Step::Message { id, message } => supervisor.after(id, message, now),
        Step::Sweep => supervisor.after_sweep(now),
    }
}

/// Whether session `id` was given out by the supervisor and is over: it has
/// ended, or it is gone.
pub open spec fn is_over(supervisor: SupervisorView, id: u64) -> bool {
    id < supervisor.next_id && !supervisor.store.is_active(id)
}

/// A transition moves a session forward only. It keeps the invariant, the
/// identifier and the time of creation; the state never falls back and a
/// terminal state is never left; a session description that is set stays as
/// it is; candidates are appended and never removed.
pub proof fn law_transitions_are_monotonic(session: SessionView, message: MessageView, now: u64)
    requires
        session.wf(),
    ensures
        session.next(message, now).wf(),
        session.next(message, now).id == session.id,
        session.next(message, now).created_at == session.created_at,
        session.next(message, now).last_activity_at >= session.last_activity_at,
        session.next(message, now).state.rank() >= session.state.rank(),
        session.state.terminal() ==> session.next(message, now) == session,
        session.remote_sdp is Some ==> session.next(message, now).remote_sdp == session.remote_sdp,
        session.local_sdp is Some ==> session.next(message, now).local_sdp == session.local_sdp,
        session.candidates.is_prefix_of(session.next(message, now).candidates),
{
    session.lemma_next_wf(message, now);
}

/// A message that the engine rejects as invalid changes nothing. An adapter
/// failure is the one error that does change the session: it fails, and the
/// adapter's message is recorded as the reason.
pub proof fn law_rejection_changes_nothing(session: SessionView, message: MessageView, now: u64)
    requires
        session.wf(),
    ensures
        session.verdict(message) is Some && session.verdict(message) != Some(ErrorKind::Adapter)
            ==> session.next(message, now) == session,
        session.verdict(message) == Some(ErrorKind::Adapter) ==> session.next(message, now).state
            == SessionState::Failed && session.ends_with(message, now),
        session.verdict(message) is None && !(message is Close) && !(message is Fail)
            ==> !session.next(message, now).state.terminal(),
{
}

/// A request to close or to fail a session is never refused, and the session
/// has ended after it: as closed or failed where it was active, and as it was
/// where it had ended before. Asking again changes nothing.
pub proof fn law_ending_always_succeeds(
    session: SessionView,
    message: MessageView,
    again: MessageView,
    now: u64,
    later: u64,
)
    requires
        session.wf(),
        message is Close || message is Fail,
        again is Close || again is Fail,
    ensures
        session.verdict(message) is None,
        session.next(message, now).state.terminal(),
        session.state.terminal() ==> session.next(message, now) == session,
        !session.state.terminal() && message is Close ==> session.next(message, now).state
            == SessionState::Closed,
        !session.state.terminal() && message is Fail ==> session.next(message, now).state
            == SessionState::Failed,
        session.next(message, now).next(again, later) == session.next(message, now),
{
}

/// A session that was removed from a store is gone: it is not found again,
/// removing it again changes nothing, and the other sessions stay as they
/// were.
pub proof fn law_removed_session_is_gone(store: StoreView, id: u64, other: u64)
    requires
        store.wf(),
    ensures
        store.without(id).wf(),
        !store.without(id).contains(id),
        store.without(id).without(id) == store.without(id),
        other != id ==> (store.without(id).contains(other) <==> store.contains(other)),
        other != id && store.contains(other) ==> store.without(id).session(other)
            == store.session(other),
{
    store.lemma_without(id, id);
    store.lemma_without(id, other);
}

/// A well-formed offer that the adapter answers with a non-empty description
/// is accepted while identifiers are left. It creates a session under an
/// identifier that was not in use, and that session awaits connectivity and
/// holds the offer and the answer. No other session is touched.
pub proof fn law_valid_offer_creates_session(
    supervisor: SupervisorView,
    sdp: Seq<char>,
    answer: Seq<char>,
    now: u64,
    other: u64,
)
    requires
        supervisor.wf(),
        well_formed_offer(sdp),
        answer.len() > 0,
        supervisor.next_id < u64::MAX,
    ensures
        supervisor.offer_verdict(sdp, Ok(answer)) is None,
        supervisor.after_offer(sdp, Ok(answer), now).wf(),
        !supervisor.store.contains(supervisor.next_id),
        supervisor.after_offer(sdp, Ok(answer), now).store.contains(supervisor.next_id),
        supervisor.after_offer(sdp, Ok(answer), now).store.session(supervisor.next_id) == (
        SessionView {
            state: SessionState::AwaitingAnswerSent,
            remote_sdp: Some(sdp),
            local_sdp: Some(answer),
            ..SessionView::fresh(supervisor.next_id, now)
        }),
        other != supervisor.next_id ==> (supervisor.after_offer(
            sdp,
            Ok(answer),
            now,
        ).store.contains(other) <==> supervisor.store.contains(other)),
        supervisor.store.contains(other) ==> supervisor.after_offer(
            sdp,
            Ok(answer),
            now,
        ).store.session(other) == supervisor.store.session(other),
{
    let id = supervisor.next_id;
    let message = offer_message(sdp, Ok(answer));
    supervisor.lemma_after_offer_wf(sdp, Ok(answer), now);
    supervisor.store.lemma_with_new(id, now, id);
    supervisor.store.lemma_with_new(id, now, other);
    let created = supervisor.store.with_new(id, now);
    created.lemma_with_message(id, message, now, id);
    created.lemma_with_message(id, message, now, other);
}

/// A malformed offer is refused with `InvalidOffer` whatever the adapter
/// would answer, and no session is created: the supervisor stays as it was.
/// The empty text is malformed.
pub proof fn law_malformed_offer_creates_nothing(
    supervisor: SupervisorView,
    sdp: Seq<char>,
    answer: Result<Seq<char>, Seq<char>>,
    now: u64,
)
    requires
        !well_formed_offer(sdp),
    ensures
        supervisor.offer_verdict(sdp, answer) == Some(ErrorKind::InvalidOffer),
        supervisor.after_offer(sdp, answer, now) == supervisor,
        !well_formed_offer(Seq::empty()),
{
}

/// Where the adapter fails on an offer, or answers it with an empty
/// description, the offer is answered with an adapter error and the session
/// that was created for it has failed.
pub proof fn law_failed_answer_fails_session(
    supervisor: SupervisorView,
    sdp: Seq<char>,
    answer: Result<Seq<char>, Seq<char>>,
    now: u64,
)
    requires
        supervisor.wf(),
        supervisor.offer_refusal(sdp) is None,
        !(answer matches Ok(text) && text.len() > 0),
    ensures
        supervisor.offer_verdict(sdp, answer) == Some(ErrorKind::Adapter),
        supervisor.after_offer(sdp, answer, now).store.contains(supervisor.next_id),
        supervisor.after_offer(sdp, answer, now).store.session(supervisor.next_id).state
            == SessionState::Failed,
{
    let id = supervisor.next_id;
    supervisor.lemma_after_offer_wf(sdp, answer, now);
    supervisor.store.lemma_with_new(id, now, id);
    supervisor.store.with_new(id, now).lemma_with_message(id, offer_message(sdp, answer), now, id);
}

/// Submitting a candidate a second time is accepted like the first time and
/// corrupts nothing: the candidates stay as they were after the first time,
/// the candidate among them once, and only the time of last activity may
/// have moved. The second time the candidate is forwarded to the adapter once
/// more, and nothing else is asked of the adapter.
pub proof fn law_duplicate_candidate_is_harmless(
    supervisor: SupervisorView,
    id: u64,
    candidate: Seq<char>,
    first: u64,
    second: u64,
)
    requires
        supervisor.wf(),
        supervisor.verdict(id, candidate_message(candidate, Ok(()))) is None,
    ensures
        ({
            let message = candidate_message(candidate, Ok(()));
            let once = supervisor.after(id, message, first);
            let twice = once.after(id, message, second);
            &&& once.verdict(id, message) is None
            &&& twice.wf()
            &&& twice.store.contains(id)
            &&& once.store.session(id).candidates.contains(candidate)
            &&& once.store.session(id).candidates.no_duplicates()
            &&& twice.store.session(id) == (SessionView {
                last_activity_at: once.store.session(id).activity_after(second),
                ..once.store.session(id)
            })
            &&& twice.store.sessions.len() == supervisor.store.sessions.len()
            &&& once.candidate_calls(id, candidate, Ok(())) == seq![
                AdapterCall::ApplyCandidate { session_id: id, candidate },
            ]
        }),
{
    let message = candidate_message(candidate, Ok(()));
    let once = supervisor.after(id, message, first);
    supervisor.lemma_after_wf(id, message, first);
    supervisor.store.lemma_with_message(id, message, first, id);
    once.lemma_after_wf(id, message, second);
    once.store.lemma_with_message(id, message, second, id);
    supervisor.store.session(id).lemma_candidates_with(candidate, candidate);
}

/// Two candidates that are submitted one after the other are both kept, and
/// so is every candidate that was there before: no update is lost.
pub proof fn law_no_candidate_is_lost(
    supervisor: SupervisorView,
    id: u64,
    one: Seq<char>,
    other: Seq<char>,
    first: u64,
    second: u64,
)
    requires
        supervisor.wf(),
        supervisor.verdict(id, candidate_message(one, Ok(()))) is None,
    ensures
        ({
            let after_one = supervisor.after(id, candidate_message(one, Ok(())), first);
            let after_both = after_one.after(id, candidate_message(other, Ok(())), second);
            &&& after_one.verdict(id, candidate_message(other, Ok(()))) is None
            &&& after_both.wf()
            &&& after_both.store.session(id).candidates.contains(one)
            &&& after_both.store.session(id).candidates.contains(other)
            &&& supervisor.store.session(id).candidates.is_prefix_of(
                after_both.store.session(id).candidates,
            )
            &&& after_both.store.session(id).state == supervisor.store.session(id).state
        }),
{
    let first_message = candidate_message(one, Ok(()));
    let second_message = candidate_message(other, Ok(()));
    let after_one = supervisor.after(id, first_message, first);
    let after_both = after_one.after(id, second_message, second);
    supervisor.lemma_after_wf(id, first_message, first);
    supervisor.store.lemma_with_message(id, first_message, first, id);
    after_one.lemma_after_wf(id, second_message, second);
    after_one.store.lemma_with_message(id, second_message, second, id);
    supervisor.store.session(id).lemma_candidates_with(one, one);
    after_one.store.session(id).lemma_candidates_with(other, one);
}

/// After a request to close a session, nothing that is asked of that session
/// succeeds: an offer, a candidate or a report of connection is answered with
/// `SessionNotFound` or `InvalidState`, and changes nothing.
pub proof fn law_nothing_succeeds_after_close(
    supervisor: SupervisorView,
    id: u64,
    now: u64,
    message: MessageView,
    later: u64,
)
    requires
        supervisor.wf(),
        !(message is Close),
        !(message is Fail),
    ensures
        ({
            let closed = supervisor.after_close(id, now);
            &&& closed.wf()
            &&& !closed.store.is_active(id)
            &&& closed.verdict(id, message) == Some(ErrorKind::SessionNotFound) || closed.verdict(
                id,
                message,
            ) == Some(ErrorKind::InvalidState)
            &&& closed.after(id, message, later) == closed
        }),
{
    let close = close_message();
    let closed = supervisor.after_close(id, now);
    supervisor.lemma_after_wf(id, close, now);
    supervisor.store.lemma_with_message(id, close, now, id);
    lemma_over_rejects(closed, id, message, later);
}

/// A message for a session that has ended or is not stored is answered with
/// `SessionNotFound` or `InvalidState`, unless it asks to close or fail the
/// session, and changes nothing in any case.
pub proof fn lemma_over_rejects(supervisor: SupervisorView, id: u64, message: MessageView, now: u64)
    requires
        supervisor.wf(),
        !supervisor.store.is_active(id),
    ensures
        !(message is Close) && !(message is Fail) ==> supervisor.verdict(id, message) == Some(
            ErrorKind::SessionNotFound,
        ) || supervisor.verdict(id, message) == Some(ErrorKind::InvalidState),
        supervisor.after(id, message, now) == supervisor,
{
    if supervisor.store.contains(id) {
        let p = supervisor.store.position(id);
        assert(supervisor.store.holds_at(id, p));
        assert(supervisor.after(id, message, now).store.sessions =~= supervisor.store.sessions);
    }
}

/// Closing always succeeds, and closing again changes nothing: a session that
/// is unknown or has ended already is left as it is and the adapter is not
/// called, and after a close the session is not active, whatever it was
/// before. An active session is torn down once, by the close that ends it.
pub proof fn law_close_is_idempotent(supervisor: SupervisorView, id: u64, now: u64, later: u64)
    requires
        supervisor.wf(),
    ensures
        supervisor.verdict(id, close_message()) is None
            || !supervisor.store.contains(id),
        !supervisor.store.is_active(id) ==> supervisor.after_close(id, now) == supervisor,
        !supervisor.after_close(id, now).store.is_active(id),
        supervisor.after_close(id, now).after_close(id, later) == supervisor.after_close(id, now),
        supervisor.store.is_active(id) ==> supervisor.after_close(id, now).store.session(id).state
            == SessionState::Closed,
        supervisor.store.is_active(id) ==> supervisor.ending_calls(id).len() == 1,
        supervisor.store.is_active(id) ==> supervisor.ending_calls(id)[0] == (
        AdapterCall::Teardown { session_id: id }),
        !supervisor.store.is_active(id) ==> supervisor.ending_calls(id).len() == 0,
        supervisor.after_close(id, now).ending_calls(id).len() == 0,
{
    let close = close_message();
    let closed = supervisor.after_close(id, now);
    supervisor.lemma_after_wf(id, close, now);
    supervisor.store.lemma_with_message(id, close, now, id);
    if !supervisor.store.is_active(id) {
        lemma_over_rejects(supervisor, id, close, now);
    }
    lemma_over_rejects(closed, id, close, later);
}

/// A sweep removes exactly the sessions that have expired. Each of them is
/// handed back; one that was still active has failed with the reason
/// `idle_timeout` on its way out, and every one handed back has ended. A
/// session that has not expired stays as it is.
pub proof fn law_sweep_fails_what_it_removes(supervisor: SupervisorView, now: u64, i: int)
    requires
        supervisor.wf(),
        0 <= i < supervisor.store.expired(now, supervisor.ttl).len(),
    ensures
        supervisor.after_sweep(now).wf(),
        supervisor.swept(now).len() == supervisor.store.expired(now, supervisor.ttl).len(),
        ({
            let before = supervisor.store.expired(now, supervisor.ttl)[i];
            let handed_back = supervisor.swept(now)[i];
            &&& supervisor.store.contains(before.id)
            &&& supervisor.store.session(before.id) == before
            &&& before.expired_at(now, supervisor.ttl)
            &&& !supervisor.after_sweep(now).store.contains(before.id)
            &&& handed_back == before.next(idle_timeout_message(), now)
            &&& handed_back.id == before.id
            &&& handed_back.state.terminal()
            &&& !before.state.terminal() ==> handed_back.state == SessionState::Failed
                && handed_back.reason == Some(IDLE_TIMEOUT@)
            &&& before.state.terminal() ==> handed_back == before
        }),
{
    let ttl = supervisor.ttl;
    let expired = StoreView { sessions: supervisor.store.expired(now, ttl) };
    let before = expired.sessions[i];
    supervisor.lemma_after_sweep_wf(now);
    supervisor.store.lemma_sweep(now, ttl, before.id);
    assert(expired.holds_at(before.id, i));
    expired.lemma_position(before.id, i);
}

/// A sweep keeps exactly the sessions that have not expired, each as it was.
pub proof fn law_sweep_keeps_the_rest(supervisor: SupervisorView, now: u64, id: u64)
    requires
        supervisor.wf(),
    ensures
        supervisor.after_sweep(now).store.contains(id) <==> supervisor.store.contains(id)
            && !supervisor.store.session(id).expired_at(now, supervisor.ttl),
        supervisor.after_sweep(now).store.contains(id) ==> supervisor.after_sweep(
            now,
        ).store.session(id) == supervisor.store.session(id),
        supervisor.store.contains(id) && supervisor.store.session(id).expired_at(
            now,
            supervisor.ttl,
        ) ==> exists|i: int|
            0 <= i < supervisor.swept(now).len() && #[trigger] supervisor.swept(now)[i]
                == supervisor.store.session(id).next(idle_timeout_message(), now),
{
    let ttl = supervisor.ttl;
    supervisor.store.lemma_sweep(now, ttl, id);
    let expired = StoreView { sessions: supervisor.store.expired(now, ttl) };
    if expired.contains(id) {
        let p = expired.position(id);
        assert(expired.holds_at(id, p));
        let failed = supervisor.store.session(id).next(idle_timeout_message(), now);
        assert(supervisor.swept(now)[p] == failed);
    }
}

/// With a time to live of zero a sweep removes every session: none is left,
/// every session is handed back in its place, each one that was active has
/// failed with the reason `idle_timeout`, and the adapter is told to tear
/// down every one of them.
pub proof fn law_sweep_with_zero_ttl_removes_all(supervisor: SupervisorView, now: u64)
    requires
        supervisor.wf(),
        supervisor.ttl == 0,
    ensures
        supervisor.after_sweep(now).store.sessions.len() == 0,
        supervisor.swept(now).len() == supervisor.store.sessions.len(),
        forall|i: int|
            0 <= i < supervisor.store.sessions.len() ==> #[trigger] supervisor.swept(now)[i]
                == supervisor.store.sessions[i].next(idle_timeout_message(), now),
        forall|i: int|
            0 <= i < supervisor.store.sessions.len()
                && !supervisor.store.sessions[i].state.terminal() ==> (
            #[trigger] supervisor.swept(now)[i]).state == SessionState::Failed
                && supervisor.swept(now)[i].reason == Some(IDLE_TIMEOUT@),
        supervisor.sweep_calls(now).len() == supervisor.store.sessions.len(),
        forall|i: int|
            0 <= i < supervisor.store.sessions.len() ==> #[trigger] supervisor.sweep_calls(now)[i]
                == (AdapterCall::Teardown { session_id: supervisor.store.sessions[i].id }),
{
    let all = supervisor.store.sessions;
    let gone = |s: SessionView| s.expired_at(now, 0);
    let kept = |s: SessionView| !s.expired_at(now, 0);
    lemma_filter_all(all, gone);
    lemma_filter_none(all, kept);
}

/// A filter that every element passes keeps the sequence.
pub proof fn lemma_filter_all<A>(s: Seq<A>, pred: spec_fn(A) -> bool)
    requires
        forall|i: int| 0 <= i < s.len() ==> pred(#[trigger] s[i]),
    ensures
        s.filter(pred) == s,
    decreases s.len(),
{
    reveal(Seq::filter);
    if s.len() > 0 {
        lemma_filter_all(s.drop_last(), pred);
        assert(s.drop_last().push(s.last()) =~= s);
    } else {
        assert(s.filter(pred) =~= s);
    }
}

/// A filter that no element passes leaves nothing.
pub proof fn lemma_filter_none<A>(s: Seq<A>, pred: spec_fn(A) -> bool)
    requires
        forall|i: int| 0 <= i < s.len() ==> !pred(#[trigger] s[i]),
    ensures
        s.filter(pred).len() == 0,
    decreases s.len(),
{
    reveal(Seq::filter);
    if s.len() > 0 {
        lemma_filter_none(s.drop_last(), pred);
    }
}

/// Every step of a supervisor keeps its invariant and never lowers the next
/// identifier. An identifier that was given out is never given out again: an
/// offer creates its session under the next identifier, which lies above all
/// that were given out, and no other step adds a session.
pub proof fn law_identifiers_are_never_reused(
    supervisor: SupervisorView,
    step: Step,
    now: u64,
    id: u64,
)
    requires
        supervisor.wf(),
    ensures
        after_step(supervisor, step, now).wf(),
        after_step(supervisor, step, now).next_id >= supervisor.next_id,
        after_step(supervisor, step, now).store.contains(id) && !supervisor.store.contains(id)
            ==> step is Offer && id == supervisor.next_id && after_step(
            supervisor,
            step,
            now,
        ).next_id > id,
        id < supervisor.next_id && !supervisor.store.contains(id) ==> !after_step(
            supervisor,
            step,
            now,
        ).store.contains(id),
{
    match step {
        Step::Offer { sdp, answer } => {
            supervisor.lemma_after_offer_wf(sdp, answer, now);
            if supervisor.offer_refusal(sdp) is None {
                let new = supervisor.next_id;
                supervisor.store.lemma_with_new(new, now, id);
                supervisor.store.with_new(new, now).lemma_with_message(
                    new,
                    offer_message(sdp, answer),
                    now,
                    id,
                );
            }
        },
        Step::Message { id: target, message } => {
            supervisor.lemma_after_wf(target, message, now);
            supervisor.store.lemma_with_message(target, message, now, id);
        },
        Step::Sweep => {
            supervisor.lemma_after_sweep_wf(now);
            supervisor.store.lemma_sweep(now, supervisor.ttl, id);
        },
    }
}

/// A session that is over stays over, whatever steps the supervisor takes:
/// once it has ended or is gone, no offer, message or sweep makes it active
/// again.
pub proof fn law_ended_sessions_stay_ended(
    supervisor: SupervisorView,
    step: Step,
    now: u64,
    id: u64,
)
    requires
        supervisor.wf(),
        is_over(supervisor, id),
    ensures
        is_over(after_step(supervisor, step, now), id),
{
    law_identifiers_are_never_reused(supervisor, step, now, id);
    match step {
        Step::Offer { sdp, answer } => {
            if supervisor.offer_refusal(sdp) is None {
                let new = supervisor.next_id;
                supervisor.store.lemma_with_new(new, now, id);
                supervisor.store.with_new(new, now).lemma_with_message(
                    new,
                    offer_message(sdp, answer),
                    now,
                    id,
                );
            }
        },
        Step::Message { id: target, message } => {
            supervisor.store.lemma_with_message(target, message, now, id);
            if supervisor.store.contains(id) {
                if target == id {
                    law_transitions_are_monotonic(supervisor.store.session(id), message, now);
                }
            }
        },
        Step::Sweep => {
            supervisor.store.lemma_sweep(now, supervisor.ttl, id);
        },
    }
}

/// On the wire every session identifier has one text, and that text names
/// no other identifier: the text of an identifier is read back as that
/// identifier, and a text that names an identifier is the text of it.
pub proof fn law_session_id_has_one_text(id: u64, text: Seq<char>)
    ensures
        session_id_of(decimal_text(id as nat)) == Some(id),
        session_id_of(text) == Some(id) ==> text == decimal_text(id as nat),
{
    lemma_decimal_text(id as nat);
    if session_id_of(text) == Some(id) {
        lemma_text_is_decimal(text);
    }
}

} // verus!
