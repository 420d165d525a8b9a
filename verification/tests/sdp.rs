use media_engine::sdp::is_valid_offer;

#[test]
fn accepts_the_shortest_version_line() {
    assert!(is_valid_offer("v=0"));
    assert!(is_valid_offer("v=0..."));
    assert!(is_valid_offer("v="));
}

#[test]
fn accepts_a_full_description() {
    let sdp = "v=0\r\no=- 0 0 IN IP4 127.0.0.1\r\ns=-\r\nt=0 0\r\nm=audio 9 UDP/TLS/RTP/SAVPF 111\r\na=rtpmap:111 opus/48000/2\r\n";
    assert!(is_valid_offer(sdp));
    assert!(is_valid_offer("v=0\no=- 0 0 IN IP4 127.0.0.1\ns=-\nt=0 0"));
}

#[test]
fn accepts_values_outside_ascii() {
    assert!(is_valid_offer("v=0\ns=caf\u{e9} \u{1F600}\nt=0 0\n"));
}

#[test]
fn rejects_the_empty_text() {
    assert!(!is_valid_offer(""));
}

#[test]
fn rejects_a_description_that_does_not_begin_with_the_version() {
    assert!(!is_valid_offer("o=- 0 0 IN IP4 127.0.0.1\r\nv=0\r\n"));
    assert!(!is_valid_offer(" v=0"));
    assert!(!is_valid_offer("\nv=0"));
    assert!(!is_valid_offer("V=0"));
}

#[test]
fn rejects_a_line_that_is_no_field() {
    assert!(!is_valid_offer("v"));
    assert!(!is_valid_offer("v0"));
    assert!(!is_valid_offer("v=0\ngarbage"));
    assert!(!is_valid_offer("v=0\n\n"));
    assert!(!is_valid_offer("v=0\r\n\r\n"));
    assert!(!is_valid_offer("v=0\nS=-"));
    assert!(!is_valid_offer("v=0\n=x"));
    assert!(!is_valid_offer("v=0\ns"));
    assert!(!is_valid_offer("v=0\n1=x"));
    assert!(!is_valid_offer("v=0\n{=x"));
    assert!(!is_valid_offer("v=0\n`=x"));
}

#[test]
fn a_carriage_return_alone_ends_no_line() {
    assert!(is_valid_offer("v=0\rgarbage"));
    assert!(is_valid_offer("v=0\n"));
    assert!(is_valid_offer("v=0\r\n"));
}

#[test]
fn accepts_every_lower_case_letter_as_a_field_name() {
    for name in 'a'..='z' {
        let sdp = format!("v=0\n{}=x", name);
        assert!(is_valid_offer(&sdp), "{}", sdp);
    }
}
