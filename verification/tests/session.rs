use media_engine::error::{AdapterError, NegotiationError};
use media_engine::session::{Message, Session, SessionState, EMPTY_ANSWER};

const OFFER: &str = "v=0\r\no=- 1 1 IN IP4 192.0.2.1\r\ns=-\r\nt=0 0\r\n";
const ANSWER: &str = "v=0\r\no=- 2 2 IN IP4 192.0.2.2\r\ns=-\r\nt=0 0\r\n";

fn down(message: &str) -> AdapterError {
    AdapterError { message: message.to_string() }
}

fn answered(id: u64, now: u64) -> Session {
    let mut session = Session::new(id, now);
    assert_eq!(session.receive_offer(OFFER.to_string(), Ok(ANSWER.to_string()), now), Ok(()));
    session
}

fn candidates(session: &Session) -> Vec<&str> {
    session.pending_remote_candidates().iter().map(|c| c.as_str()).collect()
}

#[test]
fn a_new_session_awaits_its_offer() {
    let session = Session::new(7, 100);
    assert_eq!(session.id(), 7);
    assert_eq!(session.state(), SessionState::AwaitingOffer);
    assert_eq!(session.local_sdp(), None);
    assert_eq!(session.remote_sdp(), None);
    assert_eq!(session.reason(), None);
    assert!(session.pending_remote_candidates().is_empty());
    assert_eq!(session.created_at(), 100);
    assert_eq!(session.last_activity_at(), 100);
}

#[test]
fn an_answered_offer_awaits_connectivity() {
    let mut session = Session::new(7, 100);
    let result = session.receive_offer(OFFER.to_string(), Ok(ANSWER.to_string()), 130);
    assert_eq!(result, Ok(()));
    assert_eq!(session.state(), SessionState::AwaitingAnswerSent);
    assert_eq!(session.remote_sdp(), Some(OFFER));
    assert_eq!(session.local_sdp(), Some(ANSWER));
    assert_eq!(session.reason(), None);
    assert_eq!(session.id(), 7);
    assert_eq!(session.created_at(), 100);
    assert_eq!(session.last_activity_at(), 130);
}

#[test]
fn an_offer_is_taken_once() {
    let mut session = answered(7, 100);
    let again = session.receive_offer("v=0\r\ns=other\r\n".to_string(), Ok("v=1".to_string()), 140);
    assert_eq!(again, Err(NegotiationError::InvalidState));
    assert_eq!(session, answered(7, 100));
}

#[test]
fn a_malformed_offer_leaves_the_session_as_it_was() {
    let mut session = Session::new(7, 100);
    let result = session.receive_offer(String::new(), Ok(ANSWER.to_string()), 130);
    assert_eq!(result, Err(NegotiationError::InvalidOffer));
    assert_eq!(session, Session::new(7, 100));
    let result = session.receive_offer("hello".to_string(), Err(down("unused")), 130);
    assert_eq!(result, Err(NegotiationError::InvalidOffer));
    assert_eq!(session, Session::new(7, 100));
}

#[test]
fn the_state_is_judged_before_the_offer() {
    let mut session = answered(7, 100);
    let result = session.receive_offer(String::new(), Ok(ANSWER.to_string()), 130);
    assert_eq!(result, Err(NegotiationError::InvalidState));
}

#[test]
fn an_empty_answer_fails_the_session() {
    let mut session = Session::new(7, 100);
    let result = session.receive_offer(OFFER.to_string(), Ok(String::new()), 130);
    assert_eq!(result, Err(NegotiationError::Adapter(down("empty answer"))));
    assert_eq!(session.state(), SessionState::Failed);
    assert_eq!(session.reason(), Some("empty answer"));
    assert_eq!(EMPTY_ANSWER, "empty answer");
    assert_eq!(session.remote_sdp(), Some(OFFER));
    assert_eq!(session.local_sdp(), None);
    assert_eq!(session.last_activity_at(), 130);
}

#[test]
fn an_adapter_failure_on_the_offer_fails_the_session() {
    let mut session = Session::new(7, 100);
    let result = session.receive_offer(OFFER.to_string(), Err(down("no codecs")), 130);
    assert_eq!(result, Err(NegotiationError::Adapter(down("no codecs"))));
    assert_eq!(session.state(), SessionState::Failed);
    assert_eq!(session.reason(), Some("no codecs"));
    assert_eq!(session.remote_sdp(), Some(OFFER));
    assert_eq!(session.local_sdp(), None);
}

#[test]
fn candidates_are_appended_in_the_order_of_arrival() {
    let mut session = answered(7, 100);
    assert_eq!(session.check_candidate(), Ok(()));
    assert_eq!(session.receive_candidate("candidate:1".to_string(), Ok(()), 110), Ok(()));
    assert_eq!(session.receive_candidate("candidate:2".to_string(), Ok(()), 120), Ok(()));
    assert_eq!(session.receive_candidate("candidate:0".to_string(), Ok(()), 130), Ok(()));
    assert_eq!(candidates(&session), vec!["candidate:1", "candidate:2", "candidate:0"]);
    assert_eq!(session.state(), SessionState::AwaitingAnswerSent);
    assert_eq!(session.last_activity_at(), 130);
    assert!(session.has_candidate("candidate:2"));
    assert!(!session.has_candidate("candidate:3"));
}

#[test]
fn a_candidate_received_twice_is_kept_once() {
    let mut session = answered(7, 100);
    assert_eq!(session.receive_candidate("candidate:1".to_string(), Ok(()), 110), Ok(()));
    assert_eq!(session.receive_candidate("candidate:2".to_string(), Ok(()), 120), Ok(()));
    assert_eq!(session.receive_candidate("candidate:1".to_string(), Ok(()), 130), Ok(()));
    assert_eq!(candidates(&session), vec!["candidate:1", "candidate:2"]);
    assert_eq!(session.state(), SessionState::AwaitingAnswerSent);
    assert_eq!(session.last_activity_at(), 130);
}

#[test]
fn candidates_are_taken_while_connected() {
    let mut session = answered(7, 100);
    assert_eq!(session.mark_connected(110), Ok(()));
    assert_eq!(session.check_candidate(), Ok(()));
    assert_eq!(session.receive_candidate("candidate:1".to_string(), Ok(()), 120), Ok(()));
    assert_eq!(candidates(&session), vec!["candidate:1"]);
    assert_eq!(session.state(), SessionState::Connected);
}

#[test]
fn a_candidate_before_the_offer_is_an_invalid_state() {
    let mut session = Session::new(7, 100);
    assert_eq!(session.check_candidate(), Err(NegotiationError::InvalidState));
    let result = session.receive_candidate("candidate:1".to_string(), Ok(()), 110);
    assert_eq!(result, Err(NegotiationError::InvalidState));
    assert_eq!(session, Session::new(7, 100));
}

#[test]
fn a_candidate_after_close_is_an_invalid_state() {
    let mut session = answered(7, 100);
    assert!(session.close("bye".to_string(), 110));
    assert_eq!(session.check_candidate(), Err(NegotiationError::InvalidState));
    let result = session.receive_candidate("candidate:1".to_string(), Ok(()), 120);
    assert_eq!(result, Err(NegotiationError::InvalidState));
    let result = session.receive_candidate("candidate:1".to_string(), Err(down("late")), 120);
    assert_eq!(result, Err(NegotiationError::InvalidState));
    assert!(session.pending_remote_candidates().is_empty());
    assert_eq!(session.state(), SessionState::Closed);
    assert_eq!(session.reason(), Some("bye"));
    assert_eq!(session.last_activity_at(), 110);
}

#[test]
fn an_adapter_failure_on_a_candidate_fails_the_session() {
    let mut session = answered(7, 100);
    assert_eq!(session.receive_candidate("candidate:1".to_string(), Ok(()), 110), Ok(()));
    let result = session.receive_candidate("candidate:2".to_string(), Err(down("ice agent gone")), 120);
    assert_eq!(result, Err(NegotiationError::Adapter(down("ice agent gone"))));
    assert_eq!(session.state(), SessionState::Failed);
    assert_eq!(session.reason(), Some("ice agent gone"));
    assert_eq!(candidates(&session), vec!["candidate:1"]);
    assert_eq!(session.last_activity_at(), 120);
}

#[test]
fn a_connection_is_reported_once() {
    let mut session = answered(7, 100);
    assert_eq!(session.mark_connected(110), Ok(()));
    assert_eq!(session.state(), SessionState::Connected);
    assert_eq!(session.last_activity_at(), 110);
    assert_eq!(session.mark_connected(120), Err(NegotiationError::InvalidState));
    assert_eq!(session.state(), SessionState::Connected);
    assert_eq!(session.last_activity_at(), 110);
}

#[test]
fn a_connection_needs_an_answered_offer() {
    let mut session = Session::new(7, 100);
    assert_eq!(session.mark_connected(110), Err(NegotiationError::InvalidState));
    assert_eq!(session, Session::new(7, 100));
    let mut session = answered(7, 100);
    assert!(session.fail("gone".to_string(), 110));
    assert_eq!(session.mark_connected(120), Err(NegotiationError::InvalidState));
    assert_eq!(session.state(), SessionState::Failed);
}

#[test]
fn closing_twice_is_closing_once() {
    let mut session = answered(7, 100);
    assert!(session.close("bye".to_string(), 110));
    assert_eq!(session.state(), SessionState::Closed);
    assert_eq!(session.reason(), Some("bye"));
    assert_eq!(session.last_activity_at(), 110);
    assert!(!session.close("again".to_string(), 120));
    assert_eq!(session.state(), SessionState::Closed);
    assert_eq!(session.reason(), Some("bye"));
    assert_eq!(session.last_activity_at(), 110);
}

#[test]
fn a_session_can_be_closed_from_every_state_that_is_not_terminal() {
    let mut fresh = Session::new(1, 100);
    assert!(fresh.close("bye".to_string(), 110));
    assert_eq!(fresh.state(), SessionState::Closed);
    let mut awaiting = answered(2, 100);
    assert!(awaiting.close("bye".to_string(), 110));
    assert_eq!(awaiting.state(), SessionState::Closed);
    let mut connected = answered(3, 100);
    assert_eq!(connected.mark_connected(105), Ok(()));
    assert!(connected.close("bye".to_string(), 110));
    assert_eq!(connected.state(), SessionState::Closed);
}

#[test]
fn a_failure_ends_the_session_and_a_later_one_changes_nothing() {
    let mut session = answered(7, 100);
    assert!(session.fail("idle_timeout".to_string(), 110));
    assert_eq!(session.state(), SessionState::Failed);
    assert_eq!(session.reason(), Some("idle_timeout"));
    assert!(!session.fail("other".to_string(), 120));
    assert!(!session.close("bye".to_string(), 120));
    assert_eq!(session.state(), SessionState::Failed);
    assert_eq!(session.reason(), Some("idle_timeout"));
    assert_eq!(session.last_activity_at(), 110);
}

#[test]
fn a_closed_session_does_not_fail() {
    let mut session = answered(7, 100);
    assert!(session.close("bye".to_string(), 110));
    assert!(!session.fail("idle_timeout".to_string(), 120));
    assert_eq!(session.state(), SessionState::Closed);
    assert_eq!(session.reason(), Some("bye"));
}

#[test]
fn the_engine_handles_each_message() {
    let mut session = Session::new(7, 100);
    let offer = Message::Offer { sdp: OFFER.to_string(), answer: Ok(ANSWER.to_string()) };
    assert_eq!(session.apply(offer, 110), Ok(()));
    assert_eq!(session.state(), SessionState::AwaitingAnswerSent);
    let candidate = Message::Candidate { candidate: "candidate:1".to_string(), applied: Ok(()) };
    assert_eq!(session.apply(candidate, 120), Ok(()));
    assert_eq!(candidates(&session), vec!["candidate:1"]);
    assert_eq!(session.apply(Message::Connected, 130), Ok(()));
    assert_eq!(session.state(), SessionState::Connected);
    assert_eq!(session.apply(Message::Close { reason: "bye".to_string() }, 140), Ok(()));
    assert_eq!(session.state(), SessionState::Closed);
    assert_eq!(session.reason(), Some("bye"));
    assert_eq!(session.last_activity_at(), 140);
}

#[test]
fn a_session_that_ended_ignores_every_message() {
    let mut session = answered(7, 100);
    assert_eq!(session.apply(Message::Fail { error: "gone".to_string() }, 110), Ok(()));
    assert_eq!(session.state(), SessionState::Failed);
    let offer = Message::Offer { sdp: OFFER.to_string(), answer: Ok(ANSWER.to_string()) };
    assert_eq!(session.apply(offer, 120), Err(NegotiationError::InvalidState));
    let candidate = Message::Candidate { candidate: "candidate:1".to_string(), applied: Ok(()) };
    assert_eq!(session.apply(candidate, 120), Err(NegotiationError::InvalidState));
    assert_eq!(session.apply(Message::Connected, 120), Err(NegotiationError::InvalidState));
    assert_eq!(session.apply(Message::Close { reason: "bye".to_string() }, 120), Ok(()));
    assert_eq!(session.apply(Message::Fail { error: "more".to_string() }, 120), Ok(()));
    assert_eq!(session.state(), SessionState::Failed);
    assert_eq!(session.reason(), Some("gone"));
    assert_eq!(session.last_activity_at(), 110);
    assert!(session.pending_remote_candidates().is_empty());
}

#[test]
fn the_time_of_last_activity_never_moves_back() {
    let mut session = answered(7, 100);
    assert_eq!(session.receive_candidate("candidate:1".to_string(), Ok(()), 150), Ok(()));
    assert_eq!(session.last_activity_at(), 150);
    assert_eq!(session.receive_candidate("candidate:2".to_string(), Ok(()), 120), Ok(()));
    assert_eq!(session.last_activity_at(), 150);
    assert_eq!(session.mark_connected(90), Ok(()));
    assert_eq!(session.last_activity_at(), 150);
    assert_eq!(session.created_at(), 100);
}

#[test]
fn a_session_expires_when_it_was_idle_for_the_time_to_live() {
    let session = answered(7, 100);
    assert!(!session.is_expired(100, 30));
    assert!(!session.is_expired(129, 30));
    assert!(session.is_expired(130, 30));
    assert!(session.is_expired(131, 30));
    assert!(session.is_expired(100, 0));
    assert!(session.is_expired(u64::MAX, u64::MAX - 100));
    assert!(!session.is_expired(u64::MAX, u64::MAX - 99));
}

#[test]
fn a_clock_that_ran_backwards_counts_as_no_idle_time() {
    let session = answered(7, 100);
    assert!(!session.is_expired(50, 1));
    assert!(session.is_expired(50, 0));
}

#[test]
fn the_terminal_states_are_closed_and_failed() {
    assert!(!SessionState::AwaitingOffer.is_terminal());
    assert!(!SessionState::AwaitingAnswerSent.is_terminal());
    assert!(!SessionState::Connected.is_terminal());
    assert!(SessionState::Closed.is_terminal());
    assert!(SessionState::Failed.is_terminal());
    assert!(!SessionState::AwaitingOffer.takes_candidates());
    assert!(SessionState::AwaitingAnswerSent.takes_candidates());
    assert!(SessionState::Connected.takes_candidates());
    assert!(!SessionState::Closed.takes_candidates());
    assert!(!SessionState::Failed.takes_candidates());
}
