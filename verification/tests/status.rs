use request_telemetry::span::span_status;
use request_telemetry::span::SpanStatus;

fn error(reason: &str) -> SpanStatus {
    SpanStatus::Error { reason: reason.to_string() }
}

#[test]
fn codes_from_200_to_399_are_ok() {
    assert_eq!(span_status(200), SpanStatus::Okay);
    assert_eq!(span_status(204), SpanStatus::Okay);
    assert_eq!(span_status(301), SpanStatus::Okay);
    assert_eq!(span_status(399), SpanStatus::Okay);
}

#[test]
fn every_code_from_200_to_399_is_ok() {
    let mut code: u16 = 200;
    while code <= 399 {
        assert_eq!(span_status(code), SpanStatus::Okay);
        code += 1;
    }
}

#[test]
fn codes_from_400_to_599_are_errors() {
    assert_eq!(span_status(400), error("See trace spans for the error"));
    assert_eq!(span_status(404), error("See trace spans for the error"));
    assert_eq!(span_status(500), error("See trace spans for the error"));
    assert_eq!(span_status(599), error("See trace spans for the error"));
}

#[test]
fn every_code_from_400_to_599_is_an_error() {
    let mut code: u16 = 400;
    while code <= 599 {
        assert_eq!(span_status(code), error("See trace spans for the error"));
        code += 1;
    }
}

#[test]
fn other_codes_are_unknown() {
    assert_eq!(span_status(99), error("Unknown HTTP Status Code"));
    assert_eq!(span_status(700), error("Unknown HTTP Status Code"));
    assert_eq!(span_status(0), error("Unknown HTTP Status Code"));
    assert_eq!(span_status(199), error("Unknown HTTP Status Code"));
    assert_eq!(span_status(600), error("Unknown HTTP Status Code"));
    assert_eq!(span_status(u16::MAX), error("Unknown HTTP Status Code"));
}
