//! Signaling core for real-time media sessions: the offer/answer/ICE-candidate
//! negotiation state machine, the store that owns the sessions, and the
//! supervisor whose entry points a transport layer calls.
//!
//! Every executable function here carries a contract over a mathematical
//! model of the sessions, and the laws of the negotiation are proved against
//! that model. No function panics, and none asks anything of its caller: the
//! invariants of a session, of the store and of the supervisor hold of every
//! value of these types, and are proved of every place that makes or changes
//! one.
//!
//! - [`sdp`] decides whether an offer is well-formed.
//! - [`session`] holds one session and the state machine that moves it.
//! - [`store`] owns all sessions, keyed by their identifiers.
//! - [`adapter`] is the boundary to the media engine.
//! - [`supervisor`] offers the entry points: offer, candidate, close, sweep.
//! - [`transport`] gives the status and the identifier text for the wire.
//! - [`error`] names what can go wrong.
//! - [`laws`] proves what holds of all of it.
//!
//! A supervisor is owned by one caller at a time. Where several callers
//! share it, they put it behind a lock; the supervisor's entry points come
//! in parts so that the lock need not be held while the media engine works.

pub mod adapter;
pub mod error;
pub mod laws;
pub mod sdp;
pub mod session;
pub mod store;
pub mod supervisor;
pub mod transport;
