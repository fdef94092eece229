use request_telemetry::event::LogEvent;

fn pairs(event: &LogEvent) -> Vec<(String, String)> {
    let mut pairs: Vec<(String, String)> =
        event.fields().entries().iter().map(|a| (a.key.clone(), a.value.clone())).collect();
    pairs.sort();
    pairs
}

#[test]
fn request_event_has_its_body_and_its_message() {
    let event = LogEvent::Request {
        message: "Received Request".to_string(),
        request_body: "{\"a\":1}".to_string(),
    };
    assert_eq!(
        pairs(&event),
        vec![
            ("message".to_string(), "Received Request".to_string()),
            ("request_body".to_string(), "{\"a\":1}".to_string()),
        ]
    );
}

#[test]
fn response_event_has_its_body_and_its_message() {
    let event = LogEvent::Response { message: "m".to_string(), response_body: "done".to_string() };
    assert_eq!(
        pairs(&event),
        vec![("message".to_string(), "m".to_string()), ("response_body".to_string(), "done".to_string())]
    );
}

#[test]
fn generic_event_has_its_message_alone() {
    let event = LogEvent::Generic { message: "started".to_string() };
    assert_eq!(pairs(&event), vec![("message".to_string(), "started".to_string())]);
}

#[test]
fn request_event_is_encoded_as_one_json_object() {
    let event = LogEvent::Request {
        message: "Received Request".to_string(),
        request_body: "hi".to_string(),
    };
    assert_eq!(event.encoded(), "{\"message\":\"Received Request\",\"request_body\":\"hi\"}");
}

#[test]
fn response_event_is_encoded_with_its_text_escaped() {
    let event = LogEvent::Response {
        message: "Received Request".to_string(),
        response_body: "a \"quoted\"\nline".to_string(),
    };
    assert_eq!(
        event.encoded(),
        "{\"message\":\"Received Request\",\"response_body\":\"a \\\"quoted\\\"\\nline\"}"
    );
}

#[test]
fn generic_event_is_encoded_with_its_message() {
    let event = LogEvent::Generic { message: "started".to_string() };
    assert_eq!(event.encoded(), "{\"message\":\"started\"}");
}

#[test]
fn encoded_event_reads_back_as_its_fields() {
    let event = LogEvent::Request { message: "m".to_string(), request_body: "b\\c".to_string() };
    let value: serde_json::Value = serde_json::from_str(&event.encoded()).unwrap();
    assert_eq!(value["message"], "m");
    assert_eq!(value["request_body"], "b\\c");
    assert_eq!(value.as_object().unwrap().len(), 2);
}
