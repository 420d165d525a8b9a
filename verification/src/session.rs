//! One negotiation session and the state machine that moves it.
//!
//! The session is modelled by [`SessionView`], and the negotiation engine by
//! two functions of that model: [`SessionView::verdict`] says whether a
//! message is accepted, [`SessionView::next`] gives the session afterwards.
//! The executable transitions are proved to compute exactly these.

use crate::error::{failure, AdapterError, ErrorKind, NegotiationError};
use crate::sdp::{is_valid_offer, well_formed_offer};
use vstd::prelude::*;

verus! {

/// Where a session stands in its negotiation.
#[derive(Debug, Clone, Copy, PartialEq, Eq, Structural)]
pub enum SessionState {
    /// Created, no offer taken yet.
    AwaitingOffer,
    /// The answer was generated; connectivity is being established.
    AwaitingAnswerSent,
    /// The transport is established.
    Connected,
    /// Ended by an explicit close. Terminal.
    Closed,
    /// Ended by a failure. Terminal.
    Failed,
}

impl SessionState {
    /// No transition leaves a terminal state.
    pub open spec fn terminal(self) -> bool {
        self is Closed || self is Failed
    }

    /// The states in which remote candidates are taken.
    pub open spec fn accepts_candidates(self) -> bool {
        self is AwaitingAnswerSent || self is Connected
    }

    /// How far along the state machine a state lies.
    pub open spec fn rank(self) -> nat {
        match self {
            SessionState::AwaitingOffer => 0,
            SessionState::AwaitingAnswerSent => 1,
            SessionState::Connected => 2,
            SessionState::Closed => 3,
            SessionState::Failed => 3,
        }
    }

    /// Whether the state is terminal.
    pub fn is_terminal(&self) -> (b: bool)
        ensures
            b == self.terminal(),
    {
        match self {
            SessionState::Closed => true,
            SessionState::Failed => true,
            _ => false,
        }
    }

    /// Whether remote candidates are taken in this state.
    pub fn takes_candidates(&self) -> (b: bool)
        ensures
            b == self.accepts_candidates(),
    {
        match self {
            SessionState::AwaitingAnswerSent => true,
            SessionState::Connected => true,
            _ => false,
        }
    }
}

/// The reason recorded for a session that failed because the media engine
/// returned an empty answer.
pub const EMPTY_ANSWER: &'static str = "empty answer";

/// What the media engine adapter returned, as the model sees it: the text it
/// produced, or the message of its failure.
pub open spec fn answer_view(answer: Result<String, AdapterError>) -> Result<Seq<char>, Seq<char>> {
    match answer {
        Ok(sdp) => Ok(sdp@),
        Err(e) => Err(e.message@),
    }
}

/// The adapter's word on applying a candidate, as the model sees it: done, or
/// the message of its failure.
pub open spec fn applied_view(applied: Result<(), AdapterError>) -> Result<(), Seq<char>> {
    match applied {
        Ok(_) => Ok(()),
        Err(e) => Err(e.message@),
    }
}

/// A message for the negotiation engine. Where the media engine adapter has a
/// part in a transition, the message carries what the adapter returned.
#[derive(Debug, PartialEq, Eq)]
pub enum Message {
    /// The remote offer, with the adapter's answer to it.
    Offer { sdp: String, answer: Result<String, AdapterError> },
    /// A remote ICE candidate, with the adapter's word on applying it.
    Candidate { candidate: String, applied: Result<(), AdapterError> },
    /// The adapter reports that the transport is established.
    Connected,
    /// The session is to be closed.
    Close { reason: String },
    /// The session failed beyond recovery.
    Fail { error: String },
}

/// The model of a [`Message`].
pub enum MessageView {
    Offer { sdp: Seq<char>, answer: Result<Seq<char>, Seq<char>> },
    Candidate { candidate: Seq<char>, applied: Result<(), Seq<char>> },
    Connected,
    Close { reason: Seq<char> },
    Fail { error: Seq<char> },
}

impl View for Message {
    type V = MessageView;

    open spec fn view(&self) -> MessageView {
        match *self {
            Message::Offer { sdp, answer } => MessageView::Offer {
                sdp: sdp@,
                answer: answer_view(answer),
            },
            Message::Candidate { candidate, applied } => MessageView::Candidate {
                candidate: candidate@,
                applied: applied_view(applied),
            },
            Message::Connected => MessageView::Connected,
            Message::Close { reason } => MessageView::Close { reason: reason@ },
            Message::Fail { error } => MessageView::Fail { error: error@ },
        }
    }
}

/// The model of a [`Session`].
pub struct SessionView {
    pub id: u64,
    pub state: SessionState,
    pub local_sdp: Option<Seq<char>>,
    pub remote_sdp: Option<Seq<char>>,
    pub candidates: Seq<Seq<char>>,
    pub created_at: u64,
    pub last_activity_at: u64,
    /// Why the session ended.
    pub reason: Option<Seq<char>>,
}

impl SessionView {
    /// The session that `Session::new` makes.
    pub open spec fn fresh(id: u64, now: u64) -> SessionView {
        SessionView {
            id,
            state: SessionState::AwaitingOffer,
            local_sdp: None,
            remote_sdp: None,
            candidates: Seq::empty(),
            created_at: now,
            last_activity_at: now,
            reason: None,
        }
    }

    /// The invariant of a session: no candidate is held twice; the last
    /// activity is not earlier than the creation; a session that has ended
    /// holds the reason; one that takes candidates holds its answer; an offer
    /// that is held is well-formed; an answer that is held is not empty and
    /// has its offer beside it; and candidates are held only beside an answer.
    pub open spec fn wf(self) -> bool {
        &&& self.candidates.no_duplicates()
        &&& self.created_at <= self.last_activity_at
        &&& self.state.terminal() ==> self.reason is Some
        &&& self.state.accepts_candidates() ==> self.local_sdp is Some
        &&& self.remote_sdp matches Some(offer) ==> well_formed_offer(offer)
        &&& self.local_sdp matches Some(answer) ==> answer.len() > 0 && self.remote_sdp is Some
        &&& self.candidates.len() > 0 ==> self.local_sdp is Some
    }

    /// Whether the session can take an offer: it awaits one and holds none.
    pub open spec fn awaits_offer(self) -> bool {
        self.state is AwaitingOffer && self.remote_sdp is None
    }

    /// The time of last activity once something happened at `now`. A clock
    /// that runs backwards does not move it back.
    pub open spec fn activity_after(self, now: u64) -> u64 {
        if now > self.last_activity_at {
            now
        } else {
            self.last_activity_at
        }
    }

    /// The age of the last activity at `now`; zero where the clock ran
    /// backwards.
    pub open spec fn idle_for(self, now: u64) -> int {
        if now >= self.last_activity_at {
            now - self.last_activity_at
        } else {
            0
        }
    }

    /// Whether the session has been idle for `ttl` or longer at `now`.
    pub open spec fn expired_at(self, now: u64, ttl: u64) -> bool {
        self.idle_for(now) >= ttl
    }

    /// The session after it ended in `state` for `reason`.
    pub open spec fn ended(self, state: SessionState, reason: Seq<char>, now: u64) -> SessionView {
        SessionView {
            state,
            reason: Some(reason),
            last_activity_at: self.activity_after(now),
            ..self
        }
    }

    /// The candidates once `candidate` was received: appended, unless it is
    /// already among them.
    pub open spec fn candidates_with(self, candidate: Seq<char>) -> Seq<Seq<char>> {
        if self.candidates.contains(candidate) {
            self.candidates
        } else {
            self.candidates.push(candidate)
        }
    }

    /// Whether the engine accepts `message` for this session, and the kind of
    /// error with which it answers if not.
    pub open spec fn verdict(self, message: MessageView) -> Option<ErrorKind> {
        match message {
            MessageView::Offer { sdp, answer } => {
                if !self.awaits_offer() {
                    Some(ErrorKind::InvalidState)
                } else if !well_formed_offer(sdp) {
                    Some(ErrorKind::InvalidOffer)
                } else if answer matches Ok(text) && text.len() > 0 {
                    None
                } else {
                    Some(ErrorKind::Adapter)
                }
            },
            MessageView::Candidate { candidate, applied } => {
                if !self.state.accepts_candidates() {
                    Some(ErrorKind::InvalidState)
                } else if applied is Ok {
                    None
                } else {
                    Some(ErrorKind::Adapter)
                }
            },
            MessageView::Connected => {
                if self.state is AwaitingAnswerSent {
                    None
                } else {
                    Some(ErrorKind::InvalidState)
                }
            },
            MessageView::Close { reason } => None,
            MessageView::Fail { error } => None,
        }
    }

    /// The session after the engine has handled `message` at time `now`.
    pub open spec fn next(self, message: MessageView, now: u64) -> SessionView {
        match message {
            MessageView::Offer { sdp, answer } => {
                if !self.awaits_offer() || !well_formed_offer(sdp) {
                    self
                } else {
                    let offered = SessionView { remote_sdp: Some(sdp), ..self };
                    match answer {
                        Ok(text) => {
                            if text.len() > 0 {
                                SessionView {
                                    state: SessionState::AwaitingAnswerSent,
                                    local_sdp: Some(text),
                                    last_activity_at: self.activity_after(now),
                                    ..offered
                                }
                            } else {
                                offered.ended(SessionState::Failed, EMPTY_ANSWER@, now)
                            }
                        },
                        Err(error) => offered.ended(SessionState::Failed, error, now),
                    }
                }
            },
            MessageView::Candidate { candidate, applied } => {
                if !self.state.accepts_candidates() {
                    self
                } else {
                    match applied {
                        Ok(_) => SessionView {
                            candidates: self.candidates_with(candidate),
                            last_activity_at: self.activity_after(now),
                            ..self
                        },
                        Err(error) => self.ended(SessionState::Failed, error, now),
                    }
                }
            },
            MessageView::Connected => {
                if self.state is AwaitingAnswerSent {
                    SessionView {
                        state: SessionState::Connected,
                        last_activity_at: self.activity_after(now),
                        ..self
                    }
                } else {
                    self
                }
            },
            MessageView::Close { reason } => {
                if self.state.terminal() {
                    self
                } else {
                    self.ended(SessionState::Closed, reason, now)
                }
            },
            MessageView::Fail { error } => {
                if self.state.terminal() {
                    self
                } else {
                    self.ended(SessionState::Failed, error, now)
                }
            },
        }
    }

    /// Whether handling `message` ends the session, so that the adapter is to
    /// tear its transport down.
    pub open spec fn ends_with(self, message: MessageView, now: u64) -> bool {
        !self.state.terminal() && self.next(message, now).state.terminal()
    }

    /// A candidate is among the candidates once it was received, and so are
    /// those that were there before.
    pub proof fn lemma_candidates_with(self, candidate: Seq<char>, earlier: Seq<char>)
        ensures
            self.candidates_with(candidate).contains(candidate),
            self.candidates.contains(earlier) ==> self.candidates_with(candidate).contains(
                earlier,
            ),
            self.candidates.is_prefix_of(self.candidates_with(candidate)),
    {
        if !self.candidates.contains(candidate) {
            let grown = self.candidates.push(candidate);
            assert(grown[grown.len() - 1] == candidate);
            if self.candidates.contains(earlier) {
                let at = choose|i: int|
                    0 <= i < self.candidates.len() && self.candidates[i] == earlier;
                assert(grown[at] == earlier);
            }
        }
    }

    /// Every transition keeps the invariant.
    pub proof fn lemma_next_wf(self, message: MessageView, now: u64)
        requires
            self.wf(),
        ensures
            self.next(message, now).wf(),
    {
        match message {
            MessageView::Candidate { candidate, applied } => {
                if self.state.accepts_candidates() && applied is Ok && !self.candidates.contains(
                    candidate,
                ) {
                    let grown = self.candidates.push(candidate);
                    assert forall|i: int, j: int|
                        0 <= i < grown.len() && 0 <= j < grown.len() && i != j implies grown[i]
                        != grown[j] by {
                        if i < self.candidates.len() && j < self.candidates.len() {
                            assert(self.candidates[i] != self.candidates[j]);
                        } else if i < self.candidates.len() {
                            assert(self.candidates.contains(self.candidates[i]));
                        } else {
                            assert(self.candidates.contains(self.candidates[j]));
                        }
                    }
                }
            },
            _ => {},
        }
    }
}

/// The model of an optional text.
pub open spec fn text_view(text: Option<String>) -> Option<Seq<char>> {
    match text {
        Some(s) => Some(s@),
        None => None,
    }
}

/// The model of a list of texts.
pub open spec fn texts_view(texts: Seq<String>) -> Seq<Seq<char>> {
    texts.map_values(|s: String| s@)
}

/// One in-progress or established peer connection.
#[derive(Debug, PartialEq, Eq)]
pub struct Session {
    id: u64,
    state: SessionState,
    local_sdp: Option<String>,
    remote_sdp: Option<String>,
    pending_remote_candidates: Vec<String>,
    created_at: u64,
    last_activity_at: u64,
    reason: Option<String>,
}

impl View for Session {
    type V = SessionView;

    closed spec fn view(&self) -> SessionView {
        SessionView {
            id: self.id,
            state: self.state,
            local_sdp: text_view(self.local_sdp),
            remote_sdp: text_view(self.remote_sdp),
            candidates: texts_view(self.pending_remote_candidates@),
            created_at: self.created_at,
            last_activity_at: self.last_activity_at,
            reason: text_view(self.reason),
        }
    }
}

impl Session {
    /// The invariant, which holds of every session at all times.
    #[verifier::type_invariant]
    pub open spec fn wf(&self) -> bool {
        self@.wf()
    }

    /// A session with no offer yet, created at `now`.
    pub fn new(id: u64, now: u64) -> (session: Session)
        ensures
            session.wf(),
            session@ == SessionView::fresh(id, now),
    {
        let session = Session {
            id,
            state: SessionState::AwaitingOffer,
            local_sdp: None,
            remote_sdp: None,
            pending_remote_candidates: Vec::new(),
            created_at: now,
            last_activity_at: now,
            reason: None,
        };
        assert(session@.candidates =~= Seq::empty());
        session
    }

    /// The identifier, which never changes.
    pub fn id(&self) -> (id: u64)
        ensures
            id == self@.id,
    {
        self.id
    }

    /// Where the session stands.
    pub fn state(&self) -> (state: SessionState)
        ensures
            state == self@.state,
    {
        self.state
    }

    /// The time at which the session was created.
    pub fn created_at(&self) -> (at: u64)
        ensures
            at == self@.created_at,
    {
        self.created_at
    }

    /// The time of the last accepted message, by which idle expiry goes.
    pub fn last_activity_at(&self) -> (at: u64)
        ensures
            at == self@.last_activity_at,
    {
        self.last_activity_at
    }

    /// The answer that was generated for this session, once there is one.
    pub fn local_sdp(&self) -> (sdp: Option<&str>)
        ensures
            sdp matches Some(text) ==> self@.local_sdp == Some(text@),
            sdp is None ==> self@.local_sdp is None,
    {
        match &self.local_sdp {
            Some(text) => Some(text.as_str()),
            None => None,
        }
    }

    /// The offer that this session was created for, once it was taken.
    pub fn remote_sdp(&self) -> (sdp: Option<&str>)
        ensures
            sdp matches Some(text) ==> self@.remote_sdp == Some(text@),
            sdp is None ==> self@.remote_sdp is None,
    {
        match &self.remote_sdp {
            Some(text) => Some(text.as_str()),
            None => None,
        }
    }

    /// Why the session ended, once it has.
    pub fn reason(&self) -> (reason: Option<&str>)
        ensures
            reason matches Some(text) ==> self@.reason == Some(text@),
            reason is None ==> self@.reason is None,
    {
        match &self.reason {
            Some(text) => Some(text.as_str()),
            None => None,
        }
    }

    /// The remote candidates received so far, in the order of their arrival.
    pub fn pending_remote_candidates(&self) -> (candidates: &Vec<String>)
        ensures
            texts_view(candidates@) == self@.candidates,
    {
        &self.pending_remote_candidates
    }

    /// Whether `candidate` was received before.
    pub fn has_candidate(&self, candidate: &str) -> (known: bool)
        ensures
            known == self@.candidates.contains(candidate@),
    {
        let wanted = candidate.to_owned();
        self.knows(&wanted)
    }

    fn knows(&self, candidate: &String) -> (known: bool)
        ensures
            known == self@.candidates.contains(candidate@),
    {
        let mut i: usize = 0;
        while i < self.pending_remote_candidates.len()
            invariant
                i <= self.pending_remote_candidates.len(),
                forall|j: int| 0 <= j < i ==> self@.candidates[j] != candidate@,
            decreases self.pending_remote_candidates.len() - i,
        {
            if self.pending_remote_candidates[i] == *candidate {
                assert(self@.candidates[i as int] == candidate@);
                return true;
            }
            i += 1;
        }
        false
    }

    /// Whether the session has been idle for `ttl` or longer at `now`.
    pub fn is_expired(&self, now: u64, ttl: u64) -> (expired: bool)
        ensures
            expired == self@.expired_at(now, ttl),
    {
        if now >= self.last_activity_at {
            now - self.last_activity_at >= ttl
        } else {
            ttl == 0
        }
    }

    fn touch(&mut self, now: u64)
        ensures
            final(self)@ == (SessionView {
                last_activity_at: old(self)@.activity_after(now),
                ..old(self)@
            }),
    {
        proof {
            use_type_invariant(&*self);
        }
        if now > self.last_activity_at {
            self.last_activity_at = now;
        }
    }

    fn end(&mut self, state: SessionState, reason: String, now: u64)
        requires
            state.terminal(),
        ensures
            final(self)@ == old(self)@.ended(state, reason@, now),
    {
        proof {
            use_type_invariant(&*self);
        }
        self.reason = Some(reason);
        self.state = state;
        self.touch(now);
    }

    /// Takes the remote offer `sdp` together with the adapter's `answer` to
    /// it. On a session that awaits its offer, a well-formed offer is stored;
    /// with a non-empty answer the session then awaits connectivity, and with
    /// an empty answer or an adapter failure it fails.
    pub fn receive_offer(
        &mut self,
        sdp: String,
        answer: Result<String, AdapterError>,
        now: u64,
    ) -> (result: Result<(), NegotiationError>)
        ensures
            final(self).wf(),
            final(self)@ == old(self)@.next(
                MessageView::Offer { sdp: sdp@, answer: answer_view(answer) },
                now,
            ),
            failure(result) == old(self)@.verdict(
                MessageView::Offer { sdp: sdp@, answer: answer_view(answer) },
            ),
            result matches Err(NegotiationError::Adapter(e)) ==> final(self)@.reason == Some(
                e.message@,
            ),
    {
        proof {
            use_type_invariant(&*self);
        }
        match self.state {
            SessionState::AwaitingOffer => {},
            _ => {
                return Err(NegotiationError::InvalidState);
            },
        }
        if self.remote_sdp.is_some() {
            return Err(NegotiationError::InvalidState);
        }
        if !is_valid_offer(sdp.as_str()) {
            return Err(NegotiationError::InvalidOffer);
        }
        self.remote_sdp = Some(sdp);
        match answer {
            Ok(text) => {
                if text.as_str().is_empty() {
                    let error = AdapterError { message: EMPTY_ANSWER.to_owned() };
                    self.end(SessionState::Failed, error.message.clone(), now);
                    Err(NegotiationError::Adapter(error))
                } else {
                    self.local_sdp = Some(text);
                    self.state = SessionState::AwaitingAnswerSent;
                    self.touch(now);
                    Ok(())
                }
            },
            Err(error) => {
                self.end(SessionState::Failed, error.message.clone(), now);
                Err(NegotiationError::Adapter(error))
            },
        }
    }

    /// Whether the session takes remote candidates in its present state.
    pub fn check_candidate(&self) -> (result: Result<(), NegotiationError>)
        ensures
            result is Ok <==> self@.state.accepts_candidates(),
            result matches Err(e) ==> e == NegotiationError::InvalidState,
    {
        if self.state.takes_candidates() {
            Ok(())
        } else {
            Err(NegotiationError::InvalidState)
        }
    }

    /// Takes a remote candidate together with the adapter's word on applying
    /// it. Where the adapter applied it, the candidate is appended unless it
    /// was received before; where the adapter failed, the session fails.
    pub fn receive_candidate(
        &mut self,
        candidate: String,
        applied: Result<(), AdapterError>,
        now: u64,
    ) -> (result: Result<(), NegotiationError>)
        ensures
            final(self).wf(),
            final(self)@ == old(self)@.next(
                MessageView::Candidate { candidate: candidate@, applied: applied_view(applied) },
                now,
            ),
            failure(result) == old(self)@.verdict(
                MessageView::Candidate { candidate: candidate@, applied: applied_view(applied) },
            ),
            result matches Err(NegotiationError::Adapter(e)) ==> final(self)@.reason == Some(
                e.message@,
            ),
    {
        proof {
            use_type_invariant(&*self);
            old(self)@.lemma_next_wf(
                MessageView::Candidate { candidate: candidate@, applied: applied_view(applied) },
                now,
            );
        }
        if !self.state.takes_candidates() {
            return Err(NegotiationError::InvalidState);
        }
        match applied {
            Ok(_) => {
                if !self.knows(&candidate) {
                    let mut candidates: Vec<String> = Vec::new();
                    core::mem::swap(&mut self.pending_remote_candidates, &mut candidates);
                    let ghost before = candidates@;
                    candidates.push(candidate);
                    assert(texts_view(before.push(candidate)) =~= texts_view(before).push(
                        candidate@,
                    ));
                    self.pending_remote_candidates = candidates;
                }
                self.touch(now);
                Ok(())
            },
            Err(error) => {
                self.end(SessionState::Failed, error.message.clone(), now);
                Err(NegotiationError::Adapter(error))
            },
        }
    }

    /// Records that the transport is established.
    pub fn mark_connected(&mut self, now: u64) -> (result: Result<(), NegotiationError>)
        ensures
            final(self).wf(),
            final(self)@ == old(self)@.next(MessageView::Connected, now),
            failure(result) == old(self)@.verdict(MessageView::Connected),
    {
        proof {
            use_type_invariant(&*self);
        }
        match self.state {
            SessionState::AwaitingAnswerSent => {
                self.state = SessionState::Connected;
                self.touch(now);
                Ok(())
            },
            _ => Err(NegotiationError::InvalidState),
        }
    }

    /// Closes the session. Returns whether this call ended it, in which case
    /// the adapter is to tear the transport down; on a session that had ended
    /// already nothing changes.
    pub fn close(&mut self, reason: String, now: u64) -> (ended: bool)
        ensures
            final(self).wf(),
            final(self)@ == old(self)@.next(MessageView::Close { reason: reason@ }, now),
            ended == !old(self)@.state.terminal(),
            final(self)@.state.terminal(),
    {
        proof {
            use_type_invariant(&*self);
        }
        if self.state.is_terminal() {
            false
        } else {
            self.end(SessionState::Closed, reason, now);
            true
        }
    }

    /// Fails the session. Returns whether this call ended it, in which case
    /// the adapter is to tear the transport down; on a session that had ended
    /// already nothing changes.
    pub fn fail(&mut self, error: String, now: u64) -> (ended: bool)
        ensures
            final(self).wf(),
            final(self)@ == old(self)@.next(MessageView::Fail { error: error@ }, now),
            ended == !old(self)@.state.terminal(),
            final(self)@.state.terminal(),
    {
        proof {
            use_type_invariant(&*self);
        }
        if self.state.is_terminal() {
            false
        } else {
            self.end(SessionState::Failed, error, now);
            true
        }
    }

    /// The negotiation engine: handles `message` at time `now`. The session
    /// afterwards is `next` of the session before, and the result is an error
    /// exactly where `verdict` names one. An adapter failure comes back as the
    /// error that wraps it.
    pub fn apply(&mut self, message: Message, now: u64) -> (result: Result<(), NegotiationError>)
        ensures
            final(self).wf(),
            final(self)@ == old(self)@.next(message@, now),
            failure(result) == old(self)@.verdict(message@),
            result matches Err(NegotiationError::Adapter(e)) ==> final(self)@.reason == Some(
                e.message@,
            ),
    {
        match message {
            Message::Offer { sdp, answer } => self.receive_offer(sdp, answer, now),
            Message::Candidate { candidate, applied } => self.receive_candidate(
                candidate,
                applied,
                now,
            ),
            Message::Connected => self.mark_connected(now),
            Message::Close { reason } => {
                self.close(reason, now);
                Ok(())
            },
            Message::Fail { error } => {
                self.fail(error, now);
                Ok(())
            },
        }
    }
}

} // verus!
