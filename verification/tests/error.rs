use media_engine::error::{AdapterError, ErrorKind, NegotiationError};

fn adapter_error() -> NegotiationError {
    NegotiationError::Adapter(AdapterError { message: "engine down".to_string() })
}

#[test]
fn each_error_has_its_status() {
    assert_eq!(NegotiationError::InvalidOffer.status_code(), 400);
    assert_eq!(NegotiationError::SessionNotFound.status_code(), 404);
    assert_eq!(NegotiationError::InvalidState.status_code(), 409);
    assert_eq!(NegotiationError::DuplicateSession.status_code(), 500);
    assert_eq!(adapter_error().status_code(), 500);
}

#[test]
fn client_errors_are_the_three_invalid_requests() {
    assert!(NegotiationError::InvalidOffer.is_client_error());
    assert!(NegotiationError::SessionNotFound.is_client_error());
    assert!(NegotiationError::InvalidState.is_client_error());
    assert!(!NegotiationError::DuplicateSession.is_client_error());
    assert!(!adapter_error().is_client_error());
}

#[test]
fn each_error_has_its_kind() {
    assert_eq!(NegotiationError::InvalidOffer.error_kind(), ErrorKind::InvalidOffer);
    assert_eq!(NegotiationError::SessionNotFound.error_kind(), ErrorKind::SessionNotFound);
    assert_eq!(NegotiationError::InvalidState.error_kind(), ErrorKind::InvalidState);
    assert_eq!(NegotiationError::DuplicateSession.error_kind(), ErrorKind::DuplicateSession);
    assert_eq!(adapter_error().error_kind(), ErrorKind::Adapter);
}

#[test]
fn a_copied_adapter_error_keeps_its_message() {
    let error = AdapterError { message: "engine down".to_string() };
    let copy = error.clone();
    assert_eq!(copy.message, "engine down");
    assert_eq!(copy, error);
}
