//! The store that owns every session, keyed by session identifier.
//!
//! The store is modelled by [`StoreView`]: the sessions in the order of their
//! creation, no two with the same identifier.

use crate::error::{failure, ErrorKind, NegotiationError};
use crate::session::{Message, MessageView, Session, SessionView};
use vstd::prelude::*;

verus! {

/// The model of a [`SessionStore`].
pub struct StoreView {
    pub sessions: Seq<SessionView>,
}

impl StoreView {
    /// The store that holds no session.
    pub open spec fn empty() -> StoreView {
        StoreView { sessions: Seq::empty() }
    }

    /// The invariant of a store: every session is well-formed, and no
    /// identifier occurs twice.
    pub open spec fn wf(self) -> bool {
        &&& forall|i: int| 0 <= i < self.sessions.len() ==> (#[trigger] self.sessions[i]).wf()
        &&& forall|i: int, j: int|
            0 <= i < j < self.sessions.len() ==> (#[trigger] self.sessions[i]).id != (
            #[trigger] self.sessions[j]).id
    }

    /// Whether position `i` holds the session with identifier `id`.
    pub open spec fn holds_at(self, id: u64, i: int) -> bool {
        0 <= i < self.sessions.len() && self.sessions[i].id == id
    }

    /// Whether a session with identifier `id` is stored.
    pub open spec fn contains(self, id: u64) -> bool {
        exists|i: int| self.holds_at(id, i)
    }

    /// The position of the session with identifier `id`.
    pub open spec fn position(self, id: u64) -> int {
        choose|i: int| self.holds_at(id, i)
    }

    /// The session with identifier `id`.
    pub open spec fn session(self, id: u64) -> SessionView {
        self.sessions[self.position(id)]
    }

    /// Whether a session with identifier `id` is stored and has not ended.
    pub open spec fn is_active(self, id: u64) -> bool {
        self.contains(id) && !self.session(id).state.terminal()
    }

    /// The error with which `message` for session `id` is answered:
    /// `SessionNotFound` where there is no such session, else the engine's
    /// verdict.
    pub open spec fn verdict(self, id: u64, message: MessageView) -> Option<ErrorKind> {
        if self.contains(id) {
            self.session(id).verdict(message)
        } else {
            Some(ErrorKind::SessionNotFound)
        }
    }

    /// The store with a fresh session `id` added.
    pub open spec fn with_new(self, id: u64, now: u64) -> StoreView {
        StoreView { sessions: self.sessions.push(SessionView::fresh(id, now)) }
    }

    /// The store after session `id` has handled `message`; the store itself
    /// where there is no such session.
    pub open spec fn with_message(self, id: u64, message: MessageView, now: u64) -> StoreView {
        if self.contains(id) {
            StoreView {
                sessions: self.sessions.update(
                    self.position(id),
                    self.session(id).next(message, now),
                ),
            }
        } else {
            self
        }
    }

    /// The store without session `id`.
    pub open spec fn without(self, id: u64) -> StoreView {
        if self.contains(id) {
            StoreView { sessions: self.sessions.remove(self.position(id)) }
        } else {
            self
        }
    }

    /// The sessions that have been idle for `ttl` or longer at `now`, in the
    /// order of their creation.
    pub open spec fn expired(self, now: u64, ttl: u64) -> Seq<SessionView> {
        self.sessions.filter(|s: SessionView| s.expired_at(now, ttl))
    }

    /// The store without the sessions that have been idle for `ttl` or longer
    /// at `now`.
    pub open spec fn unexpired(self, now: u64, ttl: u64) -> StoreView {
        StoreView { sessions: self.sessions.filter(|s: SessionView| !s.expired_at(now, ttl)) }
    }

    /// In a well-formed store the session with a given identifier stands at
    /// one position only.
    pub proof fn lemma_position(self, id: u64, i: int)
        requires
            self.wf(),
            self.holds_at(id, i),
        ensures
            self.contains(id),
            self.position(id) == i,
            self.session(id) == self.sessions[i],
    {
        let p = self.position(id);
        assert(self.holds_at(id, p));
        if p < i {
            assert(self.sessions[p].id != self.sessions[i].id);
        } else if i < p {
            assert(self.sessions[i].id != self.sessions[p].id);
        }
    }

    /// What `contains` and `session` are after a session was added.
    pub proof fn lemma_with_new(self, id: u64, now: u64, other: u64)
        requires
            self.wf(),
            !self.contains(id),
        ensures
            self.with_new(id, now).wf(),
            self.with_new(id, now).contains(other) <==> other == id || self.contains(other),
            self.with_new(id, now).session(id) == SessionView::fresh(id, now),
            self.contains(other) ==> self.with_new(id, now).session(other) == self.session(other),
    {
        let after = self.with_new(id, now);
        let n = self.sessions.len() as int;
        assert forall|i: int, j: int| 0 <= i < j < after.sessions.len() implies (
        #[trigger] after.sessions[i]).id != (#[trigger] after.sessions[j]).id by {
            if j == n {
                assert(!self.holds_at(id, i));
            }
        }
        assert(after.holds_at(id, n));
        after.lemma_position(id, n);
        if self.contains(other) {
            let p = self.position(other);
            assert(after.holds_at(other, p));
            after.lemma_position(other, p);
        }
        if after.contains(other) && other != id {
            let p = after.position(other);
            assert(self.holds_at(other, p));
        }
    }

    /// What `contains` and `session` are after a session handled a message.
    pub proof fn lemma_with_message(self, id: u64, message: MessageView, now: u64, other: u64)
        requires
            self.wf(),
        ensures
            self.with_message(id, message, now).wf(),
            self.with_message(id, message, now).contains(other) <==> self.contains(other),
            self.contains(id) ==> self.with_message(id, message, now).session(id)
                == self.session(id).next(message, now),
            self.contains(other) && other != id ==> self.with_message(id, message, now).session(
                other,
            ) == self.session(other),
    {
        let after = self.with_message(id, message, now);
        if self.contains(id) {
            let p = self.position(id);
            assert(self.holds_at(id, p));
            self.session(id).lemma_next_wf(message, now);
            assert forall|i: int, j: int| 0 <= i < j < after.sessions.len() implies (
            #[trigger] after.sessions[i]).id != (#[trigger] after.sessions[j]).id by {
                assert(self.sessions[i].id != self.sessions[j].id);
            }
            assert(after.holds_at(id, p));
            after.lemma_position(id, p);
            if self.contains(other) {
                let q = self.position(other);
                assert(after.holds_at(other, q));
                after.lemma_position(other, q);
            }
            if after.contains(other) {
                let q = after.position(other);
                assert(self.holds_at(other, q));
            }
        }
    }

    /// What `contains` and `session` are after a session was removed.
    pub proof fn lemma_without(self, id: u64, other: u64)
        requires
            self.wf(),
        ensures
            self.without(id).wf(),
            self.without(id).contains(other) <==> other != id && self.contains(other),
            self.contains(other) && other != id ==> self.without(id).session(other)
                == self.session(other),
    {
        let after = self.without(id);
        if self.contains(id) {
            let p = self.position(id);
            assert(self.holds_at(id, p));
            assert forall|i: int, j: int| 0 <= i < j < after.sessions.len() implies (
            #[trigger] after.sessions[i]).id != (#[trigger] after.sessions[j]).id by {
                let si = if i < p { i } else { i + 1 };
                let sj = if j < p { j } else { j + 1 };
                assert(self.sessions[si].id != self.sessions[sj].id);
            }
            assert forall|i: int| 0 <= i < after.sessions.len() implies (
            #[trigger] after.sessions[i]).wf() by {
                let si = if i < p { i } else { i + 1 };
                assert(self.sessions[si].wf());
            }
            if self.contains(other) && other != id {
                let q = self.position(other);
                assert(self.holds_at(other, q));
                let aq = if q < p { q } else { q - 1 };
                assert(after.holds_at(other, aq));
                after.lemma_position(other, aq);
            }
            if after.contains(other) {
                let q = after.position(other);
                assert(after.holds_at(other, q));
                let sq = if q < p { q } else { q + 1 };
                assert(self.holds_at(other, sq));
                if other == id {
                    self.lemma_position(id, sq);
                }
            }
        } else {
            if after.contains(other) && other == id {
                assert(false);
            }
        }
    }

    /// A sweep parts the store in two: a session is kept exactly if it has not
    /// expired, and returned exactly if it has. Both parts keep the order, and
    /// what is kept is a well-formed store.
    pub proof fn lemma_sweep(self, now: u64, ttl: u64, id: u64)
        requires
            self.wf(),
        ensures
            self.unexpired(now, ttl).wf(),
            self.unexpired(now, ttl).contains(id) <==> self.contains(id) && !self.session(
                id,
            ).expired_at(now, ttl),
            self.unexpired(now, ttl).contains(id) ==> self.unexpired(now, ttl).session(id)
                == self.session(id),
            (StoreView { sessions: self.expired(now, ttl) }).wf(),
            (StoreView { sessions: self.expired(now, ttl) }).contains(id) <==> self.contains(id)
                && self.session(id).expired_at(now, ttl),
            (StoreView { sessions: self.expired(now, ttl) }).contains(id) ==> (StoreView {
                sessions: self.expired(now, ttl),
            }).session(id) == self.session(id),
    {
        let keep = |s: SessionView| !s.expired_at(now, ttl);
        let drop = |s: SessionView| s.expired_at(now, ttl);
        self.lemma_part(keep, id);
        self.lemma_part(drop, id);
    }

    /// The part of a well-formed store that `pred` selects is a well-formed
    /// store, and holds exactly the selected sessions.
    pub proof fn lemma_part(self, pred: spec_fn(SessionView) -> bool, id: u64)
        requires
            self.wf(),
        ensures
            (StoreView { sessions: self.sessions.filter(pred) }).wf(),
            (StoreView { sessions: self.sessions.filter(pred) }).contains(id) <==> self.contains(id)
                && pred(self.session(id)),
            (StoreView { sessions: self.sessions.filter(pred) }).contains(id) ==> (StoreView {
                sessions: self.sessions.filter(pred),
            }).session(id) == self.session(id),
        decreases self.sessions.len(),
    {
        reveal(Seq::filter);
        let part = StoreView { sessions: self.sessions.filter(pred) };
        if self.sessions.len() > 0 {
            let n = self.sessions.len() - 1;
            let last = self.sessions[n];
            let front = StoreView { sessions: self.sessions.drop_last() };
            let front_part = StoreView { sessions: front.sessions.filter(pred) };
            assert(front.wf()) by {
                assert forall|i: int| 0 <= i < front.sessions.len() implies (
                #[trigger] front.sessions[i]).wf() by {
                    assert(self.sessions[i].wf());
                }
                assert forall|i: int, j: int| 0 <= i < j < front.sessions.len() implies (
                #[trigger] front.sessions[i]).id != (#[trigger] front.sessions[j]).id by {
                    assert(self.sessions[i].id != self.sessions[j].id);
                }
            }
            front.lemma_part(pred, id);
            front.lemma_part(pred, last.id);
            assert(!front.contains(last.id)) by {
                if front.contains(last.id) {
                    let p = front.position(last.id);
                    assert(front.holds_at(last.id, p));
                    assert(self.sessions[p].id != self.sessions[n].id);
                }
            }
            assert(self.holds_at(last.id, n));
            self.lemma_position(last.id, n);
            if front.contains(id) {
                let p = front.position(id);
                assert(front.holds_at(id, p));
                assert(self.holds_at(id, p));
                self.lemma_position(id, p);
            }
            if self.contains(id) && id != last.id {
                let p = self.position(id);
                assert(self.holds_at(id, p));
                assert(front.holds_at(id, p));
                front.lemma_position(id, p);
            }
            if pred(last) {
                assert(part.sessions == front_part.sessions.push(last));
                let m = front_part.sessions.len() as int;
                assert(part.wf()) by {
                    assert forall|i: int| 0 <= i < part.sessions.len() implies (
                    #[trigger] part.sessions[i]).wf() by {
                        if i < m {
                            assert(front_part.sessions[i].wf());
                        }
                    }
                    assert forall|i: int, j: int| 0 <= i < j < part.sessions.len() implies (
                    #[trigger] part.sessions[i]).id != (#[trigger] part.sessions[j]).id by {
                        if j == m {
                            assert(!front_part.holds_at(last.id, i));
                        } else {
                            assert(front_part.sessions[i].id != front_part.sessions[j].id);
                        }
                    }
                }
                assert(part.holds_at(last.id, m));
                part.lemma_position(last.id, m);
                if front_part.contains(id) {
                    let p = front_part.position(id);
                    assert(front_part.holds_at(id, p));
                    assert(part.holds_at(id, p));
                    part.lemma_position(id, p);
                }
                if part.contains(id) && id != last.id {
                    let p = part.position(id);
                    assert(part.holds_at(id, p));
                    assert(front_part.holds_at(id, p));
                }
            } else {
                assert(part.sessions == front_part.sessions);
            }
        } else {
            assert(part.sessions =~= Seq::empty());
            if part.contains(id) {
                assert(part.holds_at(id, part.position(id)));
            }
            if self.contains(id) {
                assert(self.holds_at(id, self.position(id)));
            }
        }
    }
}

/// The models of the sessions in `sessions`.
pub open spec fn session_views(sessions: Seq<Session>) -> Seq<SessionView> {
    sessions.map_values(|s: Session| s@)
}

/// All active negotiation sessions, and those that ended and were not swept
/// yet.
#[derive(Debug)]
pub struct SessionStore {
    sessions: Vec<Session>,
}

impl View for SessionStore {
    type V = StoreView;

    closed spec fn view(&self) -> StoreView {
        StoreView { sessions: session_views(self.sessions@) }
    }
}

impl SessionStore {
    /// The invariant, which holds of every store at all times.
    #[verifier::type_invariant]
    pub open spec fn wf(&self) -> bool {
        self@.wf()
    }

    /// A store that holds no session.
    pub fn new() -> (store: SessionStore)
        ensures
            store.wf(),
            store@ == StoreView::empty(),
    {
        let store = SessionStore { sessions: Vec::new() };
        assert(store@.sessions =~= Seq::empty());
        store
    }

    /// The number of sessions stored.
    pub fn len(&self) -> (n: usize)
        ensures
            n == self@.sessions.len(),
    {
        self.sessions.len()
    }

    /// Whether no session is stored.
    pub fn is_empty(&self) -> (b: bool)
        ensures
            b == (self@.sessions.len() == 0),
    {
        self.sessions.len() == 0
    }

    /// Takes the sessions out and leaves the store empty, for a change that
    /// is put back in one step.
    fn take_all(&mut self) -> (all: Vec<Session>)
        ensures
            session_views(all@) == old(self)@.sessions,
            final(self)@ == StoreView::empty(),
    {
        let mut all: Vec<Session> = Vec::new();
        proof {
            assert(session_views(all@) =~= Seq::empty());
        }
        core::mem::swap(&mut self.sessions, &mut all);
        all
    }

    fn find(&self, id: u64) -> (found: Option<usize>)
        ensures
            found is Some <==> self@.contains(id),
            found matches Some(i) ==> self@.holds_at(id, i as int) && self@.position(id) == i,
    {
        proof {
            use_type_invariant(self);
        }
        let mut i: usize = 0;
        while i < self.sessions.len()
            invariant
                self.wf(),
                i <= self.sessions.len(),
                forall|j: int| 0 <= j < i ==> !self@.holds_at(id, j),
            decreases self.sessions.len() - i,
        {
            if self.sessions[i].id() == id {
                proof {
                    self@.lemma_position(id, i as int);
                }
                return Some(i);
            }
            i += 1;
        }
        proof {
            if self@.contains(id) {
                assert(self@.holds_at(id, self@.position(id)));
            }
        }
        None
    }

    /// Whether a session with identifier `id` is stored.
    pub fn contains(&self, id: u64) -> (b: bool)
        ensures
            b == self@.contains(id),
    {
        self.find(id).is_some()
    }

    /// Adds a fresh session with identifier `id`, created at `now`, and
    /// returns it. Fails with `DuplicateSession`, and changes nothing, where
    /// the identifier is taken.
    pub fn create(&mut self, id: u64, now: u64) -> (result: Result<&Session, NegotiationError>)
        ensures
            final(self).wf(),
            result is Ok <==> !old(self)@.contains(id),
            result matches Ok(session) ==> session@ == SessionView::fresh(id, now) && session.wf(),
            result matches Err(e) ==> e == NegotiationError::DuplicateSession,
            result is Ok ==> final(self)@ == old(self)@.with_new(id, now),
            result is Err ==> final(self)@ == old(self)@,
            final(self)@.contains(id),
            result is Ok ==> final(self)@.session(id) == SessionView::fresh(id, now),
    {
        proof {
            use_type_invariant(&*self);
        }
        match self.find(id) {
            Some(_) => Err(NegotiationError::DuplicateSession),
            None => {
                let session = Session::new(id, now);
                let mut sessions = self.take_all();
                let ghost before = sessions@;
                sessions.push(session);
                proof {
                    assert(session_views(before.push(session)) =~= session_views(before).push(
                        session@,
                    ));
                    old(self)@.lemma_with_new(id, now, id);
                }
                self.sessions = sessions;
                let last = self.sessions.len() - 1;
                Ok(&self.sessions[last])
            },
        }
    }

    /// The session with identifier `id`; `SessionNotFound` where there is
    /// none.
    pub fn get(&self, id: u64) -> (result: Result<&Session, NegotiationError>)
        ensures
            result is Ok <==> self@.contains(id),
            result matches Ok(session) ==> session@ == self@.session(id) && session.wf(),
            result matches Err(e) ==> e == NegotiationError::SessionNotFound,
    {
        proof {
            use_type_invariant(self);
        }
        match self.find(id) {
            Some(i) => {
                assert(self.sessions[i as int]@ == self@.sessions[i as int]);
                Ok(&self.sessions[i])
            },
            None => Err(NegotiationError::SessionNotFound),
        }
    }

    /// Lets session `id` handle `message` at time `now`, as one step: the
    /// store afterwards holds the session that the engine computed, whether
    /// the engine accepted the message or not. Fails with `SessionNotFound`,
    /// and changes nothing, where there is no such session; otherwise the
    /// result is the engine's.
    pub fn update(&mut self, id: u64, message: Message, now: u64) -> (result: Result<
        (),
        NegotiationError,
    >)
        ensures
            final(self).wf(),
            final(self)@ == old(self)@.with_message(id, message@, now),
            failure(result) == old(self)@.verdict(id, message@),
            result matches Err(NegotiationError::Adapter(e)) ==> final(self)@.session(id).reason
                == Some(e.message@),
            final(self)@.contains(id) == old(self)@.contains(id),
            old(self)@.contains(id) ==> final(self)@.session(id) == old(self)@.session(id).next(
                message@,
                now,
            ),
    {
        proof {
            use_type_invariant(&*self);
            old(self)@.lemma_with_message(id, message@, now, id);
        }
        match self.find(id) {
            Some(i) => {
                let mut sessions = self.take_all();
                assert(sessions[i as int]@ == old(self)@.sessions[i as int]);
                let result = sessions[i].apply(message, now);
                proof {
                    assert(session_views(sessions@) =~= old(self)@.sessions.update(
                        i as int,
                        old(self)@.session(id).next(message@, now),
                    ));
                    old(self)@.lemma_with_message(id, message@, now, id);
                }
                self.sessions = sessions;
                result
            },
            None => Err(NegotiationError::SessionNotFound),
        }
    }

    /// Takes session `id` out of the store and returns it as it last was;
    /// `SessionNotFound` where there is none.
    pub fn remove(&mut self, id: u64) -> (result: Result<Session, NegotiationError>)
        ensures
            final(self).wf(),
            final(self)@ == old(self)@.without(id),
            result is Ok <==> old(self)@.contains(id),
            result matches Ok(session) ==> session@ == old(self)@.session(id) && session.wf(),
            result matches Err(e) ==> e == NegotiationError::SessionNotFound,
            !final(self)@.contains(id),
    {
        proof {
            use_type_invariant(&*self);
            old(self)@.lemma_without(id, id);
        }
        match self.find(id) {
            Some(i) => {
                let mut sessions = self.take_all();
                let ghost before = sessions@;
                assert(before[i as int]@ == old(self)@.sessions[i as int]);
                let session = sessions.remove(i);
                proof {
                    assert(session_views(before.remove(i as int)) =~= session_views(before).remove(
                        i as int,
                    ));
                    old(self)@.lemma_without(id, id);
                }
                self.sessions = sessions;
                Ok(session)
            },
            None => Err(NegotiationError::SessionNotFound),
        }
    }

    /// Removes the sessions that have been idle for `ttl` or longer at `now`
    /// and returns them as they last were, in the order of their creation.
    /// The others stay, in their order.
    pub fn sweep_expired(&mut self, now: u64, ttl: u64) -> (removed: Vec<Session>)
        ensures
            final(self).wf(),
            final(self)@ == old(self)@.unexpired(now, ttl),
            session_views(removed@) == old(self)@.expired(now, ttl),
            forall|i: int| 0 <= i < removed.len() ==> (#[trigger] removed[i]).wf(),
    {
        proof {
            use_type_invariant(&*self);
        }
        let all = self.take_all();
        let ghost before = all@;
        let ghost keep = |s: SessionView| !s.expired_at(now, ttl);
        let ghost drop = |s: SessionView| s.expired_at(now, ttl);
        let mut kept: Vec<Session> = Vec::new();
        let mut removed: Vec<Session> = Vec::new();
        proof {
            assert(session_views(kept@) =~= session_views(before.take(0)).filter(keep)) by {
                reveal(Seq::filter);
            }
            assert(session_views(removed@) =~= session_views(before.take(0)).filter(drop)) by {
                reveal(Seq::filter);
            }
        }
        for session in it: all
            invariant
                it.seq() == before,
                keep == (|s: SessionView| !s.expired_at(now, ttl)),
                drop == (|s: SessionView| s.expired_at(now, ttl)),
                session_views(kept@) == session_views(before.take(it.index() as int)).filter(keep),
                session_views(removed@) == session_views(before.take(it.index() as int)).filter(
                    drop,
                ),
        {
            let ghost n = it.index() as int;
            let ghost old_kept = kept@;
            let ghost old_removed = removed@;
            let expired = session.is_expired(now, ttl);
            if expired {
                removed.push(session);
            } else {
                kept.push(session);
            }
            proof {
                reveal(Seq::filter);
                let upto = session_views(before.take(n + 1));
                assert(upto.drop_last() =~= session_views(before.take(n)));
                assert(upto.last() == session@);
                if expired {
                    assert(session_views(old_removed.push(session)) =~= session_views(
                        old_removed,
                    ).push(session@));
                } else {
                    assert(session_views(old_kept.push(session)) =~= session_views(old_kept).push(
                        session@,
                    ));
                }
            }
        }
        proof {
            assert(before.take(before.len() as int) =~= before);
            old(self)@.lemma_sweep(now, ttl, 0);
            let gone = StoreView { sessions: old(self)@.expired(now, ttl) };
            assert forall|i: int| 0 <= i < removed.len() implies (#[trigger] removed[i]).wf() by {
                assert(removed[i]@ == gone.sessions[i]);
            }
        }
        self.sessions = kept;
        removed
    }
}

} // verus!
