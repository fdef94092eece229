use request_telemetry::body::capture;
use request_telemetry::body::logged_body;
use request_telemetry::body::text_of;

#[test]
fn text_body_is_logged_as_its_text() {
    assert_eq!(logged_body(&b"hello world".to_vec()), "hello world");
}

#[test]
fn text_beyond_ascii_is_decoded() {
    let bytes = "h\u{e9}llo \u{4e16}\u{754c} \u{1f600}".as_bytes().to_vec();
    assert_eq!(logged_body(&bytes), "h\u{e9}llo \u{4e16}\u{754c} \u{1f600}");
}

#[test]
fn empty_body_is_logged_as_empty_text() {
    assert_eq!(logged_body(&Vec::new()), "");
}

#[test]
fn body_that_is_not_text_is_logged_as_the_description_of_the_failure() {
    let bytes = vec![0x66, 0x6f, 0xff, 0x6f];
    let expected = String::from_utf8(bytes.clone()).unwrap_err().to_string();
    let logged = logged_body(&bytes);
    assert_eq!(logged, expected);
    assert_eq!(logged, "invalid utf-8 sequence of 1 bytes from index 2");
    assert_eq!(bytes, vec![0x66, 0x6f, 0xff, 0x6f]);
}

#[test]
fn truncated_sequence_is_not_text() {
    let bytes = vec![0xe4, 0xb8];
    let expected = String::from_utf8(bytes.clone()).unwrap_err().to_string();
    assert_eq!(logged_body(&bytes), expected);
    assert_eq!(logged_body(&bytes), "incomplete utf-8 byte sequence from index 0");
}

#[test]
fn text_of_a_decoding_is_the_text_or_the_failure() {
    assert_eq!(text_of(Ok("decoded".to_string())), "decoded");
    assert_eq!(text_of(Err("failed".to_string())), "failed");
}

#[test]
fn captured_body_holds_the_bytes_that_were_read() {
    let captured = capture(Ok(vec![1, 2, 3, 0xff]));
    assert_eq!(captured.bytes, vec![1, 2, 3, 0xff]);
    assert_eq!(captured.failure, None);
}

#[test]
fn failed_read_is_recorded_and_stands_for_an_empty_body() {
    let captured = capture(Err("connection reset".to_string()));
    assert_eq!(captured.bytes, Vec::<u8>::new());
    assert_eq!(captured.failure, Some("connection reset".to_string()));
}
