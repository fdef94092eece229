//! The structured events that the middleware hands to the logger.

use crate::attributes::as_mapping;
use crate::attributes::keys_differ;
use crate::attributes::Attribute;
use crate::attributes::Attributes;
use std::collections::BTreeMap;
use vstd::prelude::*;

verus! {

/// A structured log event. The logger adds the identifiers of the active
/// span when it emits one.
#[derive(Debug, PartialEq, Eq)]
pub enum LogEvent {
    /// A request arrived; `request_body` is the text of its body.
    Request { message: String, request_body: String },
    /// A response is about to leave; `response_body` is the text of its body.
    Response { message: String, response_body: String },
    /// An event that carries a message alone.
    Generic { message: String },
}

/// The mathematical value of a [`LogEvent`].
pub enum LogEventView {
    Request { message: Seq<char>, request_body: Seq<char> },
    Response { message: Seq<char>, response_body: Seq<char> },
    Generic { message: Seq<char> },
}

impl View for LogEvent {
    type V = LogEventView;

    open spec fn view(&self) -> LogEventView {
        match self {
            LogEvent::Request { message, request_body } => LogEventView::Request {
                message: message@,
                request_body: request_body@,
            },
            LogEvent::Response { message, response_body } => LogEventView::Response {
                message: message@,
                response_body: response_body@,
            },
            LogEvent::Generic { message } => LogEventView::Generic { message: message@ },
        }
    }
}

/// The fields of an event as the logger receives them: the body under the
/// key of its kind, and the message under `message`.
pub open spec fn structured_fields(event: LogEventView) -> Map<Seq<char>, Seq<char>> {
    match event {
        LogEventView::Request { message, request_body } => Map::<
            Seq<char>,
            Seq<char>,
        >::empty().insert("request_body"@, request_body).insert("message"@, message),
        LogEventView::Response { message, response_body } => Map::<
            Seq<char>,
            Seq<char>,
        >::empty().insert("response_body"@, response_body).insert("message"@, message),
        LogEventView::Generic { message } => Map::<Seq<char>, Seq<char>>::empty().insert(
            "message"@,
            message,
        ),
    }
}

/// The line that `serde_json::to_string` writes for a mapping from text to
/// text: one JSON object, its keys in ascending order.
pub uninterp spec fn json_object(fields: Map<Seq<char>, Seq<char>>) -> Seq<char>;

/// Encodes entries with distinct keys by `serde_json::to_string`, handed to
/// it as an ordered map of text. Such a map has neither a key that is not
/// text nor a value that can refuse to be written, the two reasons for which
/// that function fails.
#[verifier::external_body]
fn encode_object(entries: &Vec<Attribute>) -> (line: String)
    requires
        keys_differ(entries@),
    ensures
        line@ == json_object(as_mapping(entries@)),
{
    let object: BTreeMap<&str, &str> = entries.iter().map(
        |entry| (entry.key.as_str(), entry.value.as_str()),
    ).collect();
    match serde_json::to_string(&object) {
        Ok(line) => line,
        Err(_) => String::new(),
    }
}

impl LogEvent {
    /// The event as one line of JSON, for a logger that takes text.
    pub fn encoded(&self) -> (line: String)
        ensures
            line@ == json_object(structured_fields(self@)),
    {
        let fields = self.fields();
        encode_object(fields.entries())
    }

    /// The fields of the event, as a mapping from key to text.
    pub fn fields(&self) -> (fields: Attributes)
        ensures
            fields@ == structured_fields(self@),
    {
        let mut fields = Attributes::new();
        match self {
            LogEvent::Request { message, request_body } => {
                fields.set("request_body".to_owned(), request_body.clone());
                fields.set("message".to_owned(), message.clone());
            },
            LogEvent::Response { message, response_body } => {
                fields.set("response_body".to_owned(), response_body.clone());
                fields.set("message".to_owned(), message.clone());
            },
            LogEvent::Generic { message } => {
                fields.set("message".to_owned(), message.clone());
            },
        }
        fields
    }
}

} // verus!
