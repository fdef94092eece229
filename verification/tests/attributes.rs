use request_telemetry::attributes::Attributes;
use request_telemetry::span::Span;
use request_telemetry::span::SpanStatus;

fn listed(attributes: &Attributes) -> Vec<(String, String)> {
    let mut listed: Vec<(String, String)> =
        attributes.entries().iter().map(|a| (a.key.clone(), a.value.clone())).collect();
    listed.sort();
    listed
}

fn pair(key: &str, value: &str) -> (String, String) {
    (key.to_string(), value.to_string())
}

#[test]
fn new_mapping_is_empty() {
    let attributes = Attributes::new();
    assert_eq!(attributes.entries().len(), 0);
    assert_eq!(attributes.get("any"), None);
}

#[test]
fn set_adds_a_key() {
    let mut attributes = Attributes::new();
    attributes.set("a".to_string(), "1".to_string());
    attributes.set("b".to_string(), "2".to_string());
    assert_eq!(attributes.get("a"), Some("1".to_string()));
    assert_eq!(attributes.get("b"), Some("2".to_string()));
    assert_eq!(attributes.get("c"), None);
    assert_eq!(listed(&attributes), vec![pair("a", "1"), pair("b", "2")]);
}

#[test]
fn set_replaces_the_value_of_a_key() {
    let mut attributes = Attributes::new();
    attributes.set("a".to_string(), "1".to_string());
    attributes.set("b".to_string(), "2".to_string());
    attributes.set("a".to_string(), "3".to_string());
    assert_eq!(attributes.get("a"), Some("3".to_string()));
    assert_eq!(listed(&attributes), vec![pair("a", "3"), pair("b", "2")]);
}

#[test]
fn keys_are_compared_exactly() {
    let mut attributes = Attributes::new();
    attributes.set("Key".to_string(), "1".to_string());
    attributes.set("key".to_string(), "2".to_string());
    attributes.set("key ".to_string(), "3".to_string());
    assert_eq!(attributes.entries().len(), 3);
    assert_eq!(attributes.get("key"), Some("2".to_string()));
}

#[test]
fn merge_prefers_the_other_mapping() {
    let mut left = Attributes::new();
    left.set("a".to_string(), "1".to_string());
    left.set("b".to_string(), "2".to_string());
    let mut right = Attributes::new();
    right.set("b".to_string(), "20".to_string());
    right.set("c".to_string(), "30".to_string());
    left.merge(&right);
    assert_eq!(listed(&left), vec![pair("a", "1"), pair("b", "20"), pair("c", "30")]);
    assert_eq!(listed(&right), vec![pair("b", "20"), pair("c", "30")]);
}

#[test]
fn copy_holds_the_same_entries() {
    let mut attributes = Attributes::new();
    attributes.set("a".to_string(), "1".to_string());
    attributes.set("b".to_string(), "2".to_string());
    let mut copy = attributes.copy();
    assert_eq!(listed(&copy), listed(&attributes));
    copy.set("a".to_string(), "changed".to_string());
    assert_eq!(attributes.get("a"), Some("1".to_string()));
}

#[test]
fn new_span_has_a_name_and_nothing_else() {
    let span = Span::new("RequestSummary");
    assert_eq!(span.name, "RequestSummary");
    assert_eq!(span.attributes.entries().len(), 0);
    assert_eq!(span.status, SpanStatus::Unset);
}

#[test]
fn span_takes_attributes_and_a_status() {
    let mut span = Span::new("s");
    span.set_attribute("k".to_string(), "v".to_string());
    span.set_attribute("k".to_string(), "w".to_string());
    span.set_status(SpanStatus::Error { reason: "why".to_string() });
    assert_eq!(span.name, "s");
    assert_eq!(span.attributes.get("k"), Some("w".to_string()));
    assert_eq!(span.attributes.entries().len(), 1);
    assert_eq!(span.status, SpanStatus::Error { reason: "why".to_string() });
    span.set_status(SpanStatus::Okay);
    assert_eq!(span.status, SpanStatus::Okay);
}
