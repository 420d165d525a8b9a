//! The boundary to the media engine.
//!
//! The negotiation core never looks inside the media engine. It hands the
//! engine an offer, a candidate or a session to tear down, and takes what
//! comes back as it is: nothing is assumed of an implementation of
//! [`MediaEngineAdapter`]. What the core does promise is which calls it
//! makes. It reaches the engine through an [`AdapterHandle`], which keeps the
//! record of the calls made, and the contracts of the supervisor say how that
//! record grows.

use crate::error::AdapterError;
use vstd::prelude::*;

verus! {

/// What the negotiation core asks of a media engine.
pub trait MediaEngineAdapter {
    /// Produces the local session description that answers `remote_sdp`.
    fn synthesize_answer(&mut self, remote_sdp: &str) -> Result<String, AdapterError>;

    /// Hands a remote ICE candidate of session `session_id` to the transport.
    fn apply_candidate(&mut self, session_id: u64, candidate: &str) -> Result<(), AdapterError>;

    /// Releases whatever the engine holds for session `session_id`. It is
    /// called for sessions that the engine may never have heard of, and can
    /// be called more than once for the same session.
    fn teardown(&mut self, session_id: u64);
}

/// A call made to the media engine.
pub enum AdapterCall {
    /// The request for the answer to an offer.
    SynthesizeAnswer { remote_sdp: Seq<char> },
    /// The request to apply a remote candidate to a session.
    ApplyCandidate { session_id: u64, candidate: Seq<char> },
    /// The order to tear a session down.
    Teardown { session_id: u64 },
}

/// A media engine as the core reaches it: the adapter, and the record of
/// every call made to it through this handle.
pub struct AdapterHandle<A: MediaEngineAdapter> {
    adapter: A,
    calls: Ghost<Seq<AdapterCall>>,
}

impl<A: MediaEngineAdapter> AdapterHandle<A> {
    /// The calls made through this handle, in their order.
    pub closed spec fn calls(&self) -> Seq<AdapterCall> {
        self.calls@
    }

    /// A handle on `adapter` through which no call was made yet.
    pub fn new(adapter: A) -> (handle: AdapterHandle<A>)
        ensures
            handle.inner() == adapter,
            handle.calls() == Seq::<AdapterCall>::empty(),
    {
        AdapterHandle { adapter, calls: Ghost(Seq::empty()) }
    }

    /// The adapter behind the handle, as it stands.
    pub closed spec fn inner(&self) -> A {
        self.adapter
    }

    /// The adapter behind the handle.
    pub fn adapter(&self) -> (adapter: &A)
        ensures
            *adapter == self.inner(),
    {
        &self.adapter
    }

    /// Gives the adapter back.
    pub fn into_adapter(self) -> (adapter: A)
        ensures
            adapter == self.inner(),
    {
        self.adapter
    }

    /// Asks the adapter for the answer to `remote_sdp`.
    pub fn synthesize_answer(&mut self, remote_sdp: &str) -> (answer: Result<String, AdapterError>)
        ensures
            final(self).calls() == old(self).calls().push(
                AdapterCall::SynthesizeAnswer { remote_sdp: remote_sdp@ },
            ),
    {
        let answer = self.adapter.synthesize_answer(remote_sdp);
        proof {
            self.calls@ = self.calls@.push(
                AdapterCall::SynthesizeAnswer { remote_sdp: remote_sdp@ },
            );
        }
        answer
    }

    /// Asks the adapter to apply `candidate` to session `session_id`.
    pub fn apply_candidate(&mut self, session_id: u64, candidate: &str) -> (applied: Result<
        (),
        AdapterError,
    >)
        ensures
            final(self).calls() == old(self).calls().push(
                AdapterCall::ApplyCandidate { session_id, candidate: candidate@ },
            ),
    {
        let applied = self.adapter.apply_candidate(session_id, candidate);
        proof {
            self.calls@ = self.calls@.push(
                AdapterCall::ApplyCandidate { session_id, candidate: candidate@ },
            );
        }
        applied
    }

    /// Tells the adapter to tear session `session_id` down.
    pub fn teardown(&mut self, session_id: u64)
        ensures
            final(self).calls() == old(self).calls().push(AdapterCall::Teardown { session_id }),
    {
        self.adapter.teardown(session_id);
        proof {
            self.calls@ = self.calls@.push(AdapterCall::Teardown { session_id });
        }
    }
}

/// The answer that [`PlaceholderEngine`] gives to every offer: one audio
/// stream with the Opus codec.
pub const PLACEHOLDER_ANSWER: &'static str = "v=0\r\n\
    o=- 0 0 IN IP4 127.0.0.1\r\n\
    s=-\r\n\
    t=0 0\r\n\
    m=audio 9 UDP/TLS/RTP/SAVPF 111\r\n\
    a=rtpmap:111 opus/48000/2\r\n";

/// A media engine that transports nothing: it answers every offer with the
/// same minimal description and accepts every candidate. It lets the
/// signaling path be wired up and exercised on its own.
#[derive(Debug, Clone, Copy, PartialEq, Eq, Structural)]
pub struct PlaceholderEngine {}

impl PlaceholderEngine {
    /// The placeholder engine; it holds no state.
    pub fn new() -> (engine: PlaceholderEngine)
        ensures
            engine == (PlaceholderEngine {  }),
    {
        PlaceholderEngine {  }
    }
}

impl MediaEngineAdapter for PlaceholderEngine {
    fn synthesize_answer(&mut self, remote_sdp: &str) -> (answer: Result<String, AdapterError>)
        ensures
            answer matches Ok(text) && text@ == PLACEHOLDER_ANSWER@,
    {
        Ok(PLACEHOLDER_ANSWER.to_owned())
    }

    fn apply_candidate(&mut self, session_id: u64, candidate: &str) -> (applied: Result<
        (),
        AdapterError,
    >)
        ensures
            applied is Ok,
    {
        Ok(())
    }

    fn teardown(&mut self, session_id: u64) {
    }
}

} // verus!
