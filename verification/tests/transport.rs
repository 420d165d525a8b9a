use media_engine::error::{AdapterError, NegotiationError};
use media_engine::transport::{
    parse_session_id, response_status, session_id_text, CANDIDATE_TAKEN, CLOSED, OFFER_ANSWERED,
};

#[test]
fn a_success_has_the_status_of_its_request() {
    let offered: Result<(u64, String), NegotiationError> = Ok((3, "v=0".to_string()));
    assert_eq!(response_status(&offered, OFFER_ANSWERED), 200);
    let taken: Result<(), NegotiationError> = Ok(());
    assert_eq!(response_status(&taken, CANDIDATE_TAKEN), 204);
    assert_eq!(CLOSED, 204);
}

#[test]
fn a_failure_has_the_status_of_its_error() {
    let errors = [
        (NegotiationError::InvalidOffer, 400),
        (NegotiationError::SessionNotFound, 404),
        (NegotiationError::InvalidState, 409),
        (NegotiationError::DuplicateSession, 500),
        (NegotiationError::Adapter(AdapterError { message: "down".to_string() }), 500),
    ];
    for (error, code) in errors {
        let result: Result<(), NegotiationError> = Err(error);
        assert_eq!(response_status(&result, CANDIDATE_TAKEN), code);
        assert_eq!(response_status(&result, OFFER_ANSWERED), code);
    }
}

#[test]
fn an_identifier_is_written_in_decimal() {
    assert_eq!(session_id_text(0), "0");
    assert_eq!(session_id_text(7), "7");
    assert_eq!(session_id_text(10), "10");
    assert_eq!(session_id_text(409), "409");
    assert_eq!(session_id_text(1234567890), "1234567890");
    assert_eq!(session_id_text(u64::MAX), "18446744073709551615");
}

#[test]
fn a_decimal_text_names_its_identifier() {
    assert_eq!(parse_session_id("0"), Some(0));
    assert_eq!(parse_session_id("7"), Some(7));
    assert_eq!(parse_session_id("10"), Some(10));
    assert_eq!(parse_session_id("409"), Some(409));
    assert_eq!(parse_session_id("18446744073709551615"), Some(u64::MAX));
    assert_eq!(parse_session_id("18446744073709551614"), Some(u64::MAX - 1));
}

#[test]
fn a_text_that_is_no_identifier_names_no_session() {
    assert_eq!(parse_session_id(""), None);
    assert_eq!(parse_session_id(" 7"), None);
    assert_eq!(parse_session_id("7 "), None);
    assert_eq!(parse_session_id("+7"), None);
    assert_eq!(parse_session_id("-7"), None);
    assert_eq!(parse_session_id("07"), None);
    assert_eq!(parse_session_id("00"), None);
    assert_eq!(parse_session_id("7a"), None);
    assert_eq!(parse_session_id("a7"), None);
    assert_eq!(parse_session_id("0x10"), None);
    assert_eq!(parse_session_id("1_000"), None);
    assert_eq!(parse_session_id("\u{0661}"), None);
    assert_eq!(parse_session_id("/"), None);
    assert_eq!(parse_session_id(":"), None);
}

#[test]
fn a_number_too_large_for_an_identifier_names_no_session() {
    assert_eq!(parse_session_id("18446744073709551616"), None);
    assert_eq!(parse_session_id("18446744073709551620"), None);
    assert_eq!(parse_session_id("28446744073709551615"), None);
    assert_eq!(parse_session_id("184467440737095516150"), None);
    assert_eq!(parse_session_id("99999999999999999999999999"), None);
}

#[test]
fn writing_and_reading_an_identifier_gives_it_back() {
    let mut id: u64 = 1;
    for _ in 0..64 {
        assert_eq!(parse_session_id(&session_id_text(id)), Some(id));
        assert_eq!(parse_session_id(&session_id_text(id - 1)), Some(id - 1));
        assert_eq!(session_id_text(id), id.to_string());
        id = id.wrapping_mul(2);
    }
    for id in [9, 10, 11, 99, 100, 101, 999_999, 1_000_000, u64::MAX] {
        assert_eq!(parse_session_id(&session_id_text(id)), Some(id));
        assert_eq!(session_id_text(id), id.to_string());
    }
}
