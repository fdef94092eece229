//! The summary span of one request: a name, a mapping from attribute key to
//! value, and a terminal status.

use crate::attributes::Attributes;
use vstd::prelude::*;

verus! {

/// How a span ended.
#[derive(Debug, PartialEq, Eq)]
pub enum SpanStatus {
    Unset,
    Okay,
    Error { reason: String },
}

/// The mathematical value of a [`SpanStatus`].
pub enum StatusView {
    Unset,
    Okay,
    Error { reason: Seq<char> },
}

impl View for SpanStatus {
    type V = StatusView;

    open spec fn view(&self) -> StatusView {
        match self {
            SpanStatus::Unset => StatusView::Unset,
            SpanStatus::Okay => StatusView::Okay,
            SpanStatus::Error { reason } => StatusView::Error { reason: reason@ },
        }
    }
}

/// The mathematical value of a [`Span`].
pub struct SpanView {
    pub name: Seq<char>,
    pub attributes: Map<Seq<char>, Seq<char>>,
    pub status: StatusView,
}

/// A span under construction.
pub struct Span {
    pub name: String,
    pub attributes: Attributes,
    pub status: SpanStatus,
}

impl View for Span {
    type V = SpanView;

    open spec fn view(&self) -> SpanView {
        SpanView { name: self.name@, attributes: self.attributes@, status: self.status@ }
    }
}

impl Span {
    /// A span called `name`, with no attribute and no status yet.
    pub fn new(name: &str) -> (span: Span)
        ensures
            span@ == (SpanView {
                name: name@,
                attributes: Map::empty(),
                status: StatusView::Unset,
            }),
    {
        Span { name: name.to_owned(), attributes: Attributes::new(), status: SpanStatus::Unset }
    }

    /// Gives the attribute `key` the value `value`, in place of any value it
    /// had.
    pub fn set_attribute(&mut self, key: String, value: String)
        ensures
            final(self)@ == (SpanView {
                attributes: old(self)@.attributes.insert(key@, value@),
                ..old(self)@
            }),
    {
        self.attributes.set(key, value);
    }

    /// Sets the terminal status.
    pub fn set_status(&mut self, status: SpanStatus)
        ensures
            final(self)@ == (SpanView { status: status@, ..old(self)@ }),
    {
        self.status = status;
    }
}

/// The status that a response code gives the span: success from 200 to 399,
/// an error from 400 to 599, and an error of its own for any other code.
pub open spec fn status_of(code: u16) -> StatusView {
    if 200 <= code <= 399 {
        StatusView::Okay
    } else if 400 <= code <= 599 {
        StatusView::Error { reason: "See trace spans for the error"@ }
    } else {
        StatusView::Error { reason: "Unknown HTTP Status Code"@ }
    }
}

/// Maps a response code to the span's terminal status.
pub fn span_status(code: u16) -> (status: SpanStatus)
    ensures
        status@ == status_of(code),
{
    if 200 <= code && code <= 399 {
        SpanStatus::Okay
    } else if 400 <= code && code <= 599 {
        SpanStatus::Error { reason: "See trace spans for the error".to_owned() }
    } else {
        SpanStatus::Error { reason: "Unknown HTTP Status Code".to_owned() }
    }
}

} // verus!
