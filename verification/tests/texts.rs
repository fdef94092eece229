use request_telemetry::text::combine;
use request_telemetry::text::find_first;
use request_telemetry::text::find_last;
use request_telemetry::text::same_text;

#[test]
fn first_position_of_a_character() {
    assert_eq!(find_first("example.com:9090", ':'), Some(11));
    assert_eq!(find_first("a:b:c", ':'), Some(1));
    assert_eq!(find_first(":", ':'), Some(0));
    assert_eq!(find_first("none", ':'), None);
    assert_eq!(find_first("", ':'), None);
}

#[test]
fn last_position_of_a_character() {
    assert_eq!(find_last("abc.def.ghi", '.'), Some(7));
    assert_eq!(find_last("a.", '.'), Some(1));
    assert_eq!(find_last(".", '.'), Some(0));
    assert_eq!(find_last("none", '.'), None);
    assert_eq!(find_last("", '.'), None);
}

#[test]
fn positions_count_characters_not_bytes() {
    assert_eq!(find_first("\u{e9}\u{e9}:x", ':'), Some(2));
    assert_eq!(find_last("\u{4e16}.\u{754c}.z", '.'), Some(3));
}

#[test]
fn texts_are_the_same_when_all_their_characters_are() {
    assert!(same_text("host", "host"));
    assert!(same_text("", ""));
    assert!(!same_text("host", "Host"));
    assert!(!same_text("host", "hosts"));
    assert!(!same_text("host", ""));
    assert!(same_text("\u{e9}t\u{e9}", "\u{e9}t\u{e9}"));
    assert!(!same_text("\u{e9}", "e"));
}

#[test]
fn combine_puts_the_tail_after_the_head() {
    assert_eq!(combine("http", "://"), "http://");
    assert_eq!(combine("", "x"), "x");
    assert_eq!(combine("x", ""), "x");
}
