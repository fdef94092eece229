//! The logging middleware as a state machine.
//!
//! The caller owns everything that takes time or touches the outside: it
//! reads the bodies, runs the handler, asks the propagator for the fields of
//! the trace context, and mirrors what it is told onto its tracer and its
//! logger. Between two such pieces of work it hands the machine an event;
//! the machine makes every decision and answers with the next thing to do.

use crate::attributes::Attributes;
use crate::body::body_text;
use crate::body::capture;
use crate::body::captured_bytes;
use crate::body::logged_body;
use crate::body::read_failure;
use crate::classify::header_attributes;
use crate::classify::logged_headers;
use crate::event::LogEvent;
use crate::event::LogEventView;
use crate::headers::by_name;
use crate::headers::header_fields;
use crate::headers::header_texts;
use crate::propagation::inject_context;
use crate::propagation::written_within;
use crate::propagation::texts_view;
use crate::request::make_request_span;
use crate::request::request_summary;
use crate::request::RequestHead;
use crate::span::span_status;
use crate::span::status_of;
use crate::span::Span;
use crate::span::SpanStatus;
use crate::span::SpanView;
use crate::text::optional_text;
use http::HeaderMap;
use http::HeaderValue;
use vstd::prelude::*;

verus! {

/// The states of the middleware, in the order in which one request passes
/// through them.
pub enum Middleware {
    /// Nothing has happened yet.
    Start,
    /// The summary span exists; the request body is being read.
    SpanOpen { span: Span, headers: HeaderMap<HeaderValue> },
    /// The request and its headers are logged; `body` waits to be passed on.
    RequestLogged { span: Span, body: Vec<u8> },
    /// The handler chain is at work.
    HandlerRunning { span: Span },
    /// The handler has answered with `status` and `headers`.
    ResponseReceived { span: Span, status: u16, headers: HeaderMap<HeaderValue> },
    /// The context is injected and the span has its status; the response
    /// body is being read.
    StatusSet { span: Span, headers: HeaderMap<HeaderValue> },
    /// The response and its headers are logged.
    ResponseLogged { span: Span, headers: HeaderMap<HeaderValue>, body: Vec<u8> },
    /// The response is on its way and the span is closed.
    Done,
}

/// What the caller reports to the machine.
pub enum Event {
    /// A request came in.
    Request { head: RequestHead, headers: HeaderMap<HeaderValue> },
    /// A body was read to its end, or reading it failed with a description.
    BodyRead { outcome: Result<Vec<u8>, String> },
    /// The handler chain returned a response.
    Response { status: u16, headers: HeaderMap<HeaderValue> },
    /// The propagator gave these fields for the span's context.
    Context { fields: Vec<(String, String)> },
    /// The last action is carried out and asked for no answer.
    Proceed,
}

/// What the machine asks of the caller.
pub enum Action {
    /// Open the span with this name and these attributes, make the context
    /// extracted from the request headers its parent, and read the request
    /// body. Answer with [`Event::BodyRead`].
    OpenSpan { name: String, attributes: Attributes },
    /// Emit the event, set the attributes on the span, and record the
    /// failure, if there is one, as an error. Answer with [`Event::Proceed`].
    LogRequest { event: LogEvent, attributes: Attributes, failure: Option<String> },
    /// Run the handler chain on the request, with this body, inside the
    /// span. Answer with [`Event::Response`].
    RunHandler { body: Vec<u8> },
    /// Ask the propagator for the fields of the span's context. Answer with
    /// [`Event::Context`].
    CollectContext,
    /// Set the span's status and read the response body. Answer with
    /// [`Event::BodyRead`].
    SetStatus { status: SpanStatus },
    /// Emit the event, set the attributes on the span, and record the
    /// failure, if there is one, as an error. Answer with [`Event::Proceed`].
    LogResponse { event: LogEvent, attributes: Attributes, failure: Option<String> },
    /// Return the response with these headers and this body, and close the
    /// span, which holds what `span` holds.
    Respond { headers: HeaderMap<HeaderValue>, body: Vec<u8>, span: Span },
    /// The event does not belong to the state; nothing is to be done.
    Ignore,
}

/// The namespace of the attributes that hold request headers.
pub open spec fn request_prefix() -> Seq<char> {
    "http.request.header"@
}

/// The namespace of the attributes that hold response headers.
pub open spec fn response_prefix() -> Seq<char> {
    "http.response.header"@
}

/// The message of both events.
pub open spec fn received_message() -> Seq<char> {
    "Received Request"@
}

/// A span after a header collection was logged onto it.
pub open spec fn with_headers(
    span: SpanView,
    fields: Seq<(Seq<char>, Option<Seq<char>>)>,
    prefix: Seq<char>,
) -> SpanView {
    SpanView {
        attributes: span.attributes.union_prefer_right(header_attributes(fields, prefix)),
        ..span
    }
}

/// Whether the machine, in `state` and given `event`, goes to `next` and
/// asks for `action`.
pub open spec fn transition(state: Middleware, event: Event, next: Middleware, action: Action) -> bool {
    match (state, event) {
        (Middleware::Start, Event::Request { head, headers }) => {
            &&& next matches Middleware::SpanOpen { span, headers: kept }
            &&& kept == headers
            &&& span@ == request_summary(head@, header_texts(headers))
            &&& action matches Action::OpenSpan { name, attributes }
            &&& name@ == span@.name
            &&& attributes@ == span@.attributes
        },
        (Middleware::SpanOpen { span, headers }, Event::BodyRead { outcome }) => {
            &&& next matches Middleware::RequestLogged { span: after, body }
            &&& after@ == with_headers(span@, header_texts(headers), request_prefix())
            &&& body@ == captured_bytes(outcome)
            &&& action matches Action::LogRequest { event: logged, attributes, failure }
            &&& logged@ == (LogEventView::Request {
                message: received_message(),
                request_body: body_text(captured_bytes(outcome)),
            })
            &&& attributes@ == header_attributes(header_texts(headers), request_prefix())
            &&& optional_text(failure) == read_failure(outcome)
        },
        (Middleware::RequestLogged { span, body }, Event::Proceed) => {
            &&& next matches Middleware::HandlerRunning { span: after }
            &&& after@ == span@
            &&& action matches Action::RunHandler { body: passed }
            &&& passed@ == body@
        },
        (Middleware::HandlerRunning { span }, Event::Response { status, headers }) => {
            &&& next matches Middleware::ResponseReceived { span: after, status: kept_status, headers: kept }
            &&& after@ == span@
            &&& kept_status == status
            &&& kept == headers
            &&& action is CollectContext
        },
        (Middleware::ResponseReceived { span, status, headers }, Event::Context { fields }) => {
            &&& next matches Middleware::StatusSet { span: after, headers: injected }
            &&& by_name(header_fields(injected)) == written_within(
                by_name(header_fields(headers)),
                texts_view(fields@),
            )
            &&& after@ == (SpanView { status: status_of(status), ..span@ })
            &&& action matches Action::SetStatus { status: set }
            &&& set@ == status_of(status)
        },
        (Middleware::StatusSet { span, headers }, Event::BodyRead { outcome }) => {
            &&& next matches Middleware::ResponseLogged { span: after, headers: kept, body }
            &&& kept == headers
            &&& after@ == with_headers(span@, header_texts(headers), response_prefix())
            &&& body@ == captured_bytes(outcome)
            &&& action matches Action::LogResponse { event: logged, attributes, failure }
            &&& logged@ == (LogEventView::Response {
                message: received_message(),
                response_body: body_text(captured_bytes(outcome)),
            })
            &&& attributes@ == header_attributes(header_texts(headers), response_prefix())
            &&& optional_text(failure) == read_failure(outcome)
        },
        (Middleware::ResponseLogged { span, headers, body }, Event::Proceed) => {
            &&& next is Done
            &&& action matches Action::Respond { headers: sent, body: passed, span: closed }
            &&& sent == headers
            &&& passed@ == body@
            &&& closed@ == span@
        },
        _ => next == state && action is Ignore,
    }
}

/// The place of a state in the order in which a request passes through them.
pub open spec fn rank(state: Middleware) -> nat {
    match state {
        Middleware::Start => 0,
        Middleware::SpanOpen { .. } => 1,
        Middleware::RequestLogged { .. } => 2,
        Middleware::HandlerRunning { .. } => 3,
        Middleware::ResponseReceived { .. } => 4,
        Middleware::StatusSet { .. } => 5,
        Middleware::ResponseLogged { .. } => 6,
        Middleware::Done => 7,
    }
}

/// A step either ignores its event and leaves the state as it is, or moves
/// to the state that comes next. No state is skipped and none comes twice,
/// so the request is logged before the handler runs, and the response before
/// the span is closed.
pub proof fn lemma_steps_in_order(state: Middleware, event: Event, next: Middleware, action: Action)
    requires
        transition(state, event, next, action),
    ensures
        action is Ignore ==> next == state,
        !(action is Ignore) ==> rank(next) == rank(state) + 1,
        action is OpenSpan <==> state is Start && event is Request,
        action is LogRequest <==> state is SpanOpen && event is BodyRead,
        action is RunHandler <==> state is RequestLogged && event is Proceed,
        action is CollectContext <==> state is HandlerRunning && event is Response,
        action is SetStatus <==> state is ResponseReceived && event is Context,
        action is LogResponse <==> state is StatusSet && event is BodyRead,
        action is Respond <==> state is ResponseLogged && event is Proceed,
{
}

/// The body that reaches the handler chain is the body that was read from
/// the request, byte for byte, whether or not it could be logged as text.
pub proof fn lemma_request_body_passed_on(
    state: Middleware,
    bytes: Vec<u8>,
    logged: Middleware,
    log: Action,
    running: Middleware,
    run: Action,
)
    requires
        state is SpanOpen,
        transition(state, Event::BodyRead { outcome: Ok(bytes) }, logged, log),
        transition(logged, Event::Proceed, running, run),
    ensures
        run matches Action::RunHandler { body } && body@ == bytes@,
{
}

/// The body that reaches the caller is the body that the handler chain
/// produced, byte for byte, and the headers are those that the injection
/// left.
pub proof fn lemma_response_body_passed_on(
    state: Middleware,
    bytes: Vec<u8>,
    logged: Middleware,
    log: Action,
    done: Middleware,
    respond: Action,
)
    requires
        state is StatusSet,
        transition(state, Event::BodyRead { outcome: Ok(bytes) }, logged, log),
        transition(logged, Event::Proceed, done, respond),
    ensures
        respond matches Action::Respond { headers, body, span } && body@ == bytes@ && headers
            == state->StatusSet_headers,
{
}

/// The status that the span ends with follows from the response code alone:
/// the machine sets it when the context is injected and never changes it
/// again.
pub proof fn lemma_status_follows_code(
    state: Middleware,
    fields: Vec<(String, String)>,
    next: Middleware,
    action: Action,
)
    requires
        state is ResponseReceived,
        transition(state, Event::Context { fields }, next, action),
    ensures
        next matches Middleware::StatusSet { span, .. } && span@.status == status_of(
            state->ResponseReceived_status,
        ),
        action matches Action::SetStatus { status } && status@ == status_of(
            state->ResponseReceived_status,
        ),
{
}

impl Middleware {
    /// The machine before a request.
    pub fn new() -> (machine: Middleware)
        ensures
            machine is Start,
    {
        Middleware::Start
    }

    /// Takes one step: from a state and an event to the next state and the
    /// action that the caller is to carry out. No event makes it fail; one
    /// that does not belong to the state leaves the state as it is.
    pub fn step(self, event: Event) -> (result: (Middleware, Action))
        ensures
            transition(self, event, result.0, result.1),
    {
        match self {
            Middleware::Start => match event {
                Event::Request { head, headers } => {
                    let span = make_request_span(&head, &headers);
                    let action = Action::OpenSpan {
                        name: span.name.clone(),
                        attributes: span.attributes.copy(),
                    };
                    (Middleware::SpanOpen { span, headers }, action)
                },
                _ => (Middleware::Start, Action::Ignore),
            },
            Middleware::SpanOpen { span, headers } => match event {
                Event::BodyRead { outcome } => {
                    let captured = capture(outcome);
                    let logged = LogEvent::Request {
                        message: "Received Request".to_owned(),
                        request_body: logged_body(&captured.bytes),
                    };
                    let attributes = logged_headers(&headers, "http.request.header");
                    let mut span = span;
                    span.attributes.merge(&attributes);
                    (
                        Middleware::RequestLogged { span, body: captured.bytes },
                        Action::LogRequest { event: logged, attributes, failure: captured.failure },
                    )
                },
                _ => (Middleware::SpanOpen { span, headers }, Action::Ignore),
            },
            Middleware::RequestLogged { span, body } => match event {
                Event::Proceed => (
                    Middleware::HandlerRunning { span },
                    Action::RunHandler { body },
                ),
                _ => (Middleware::RequestLogged { span, body }, Action::Ignore),
            },
            Middleware::HandlerRunning { span } => match event {
                Event::Response { status, headers } => (
                    Middleware::ResponseReceived { span, status, headers },
                    Action::CollectContext,
                ),
                _ => (Middleware::HandlerRunning { span }, Action::Ignore),
            },
            Middleware::ResponseReceived { span, status, headers } => match event {
                Event::Context { fields } => {
                    let mut headers = headers;
                    let _ = inject_context(&fields, &mut headers);
                    let mut span = span;
                    span.set_status(span_status(status));
                    (
                        Middleware::StatusSet { span, headers },
                        Action::SetStatus { status: span_status(status) },
                    )
                },
                _ => (Middleware::ResponseReceived { span, status, headers }, Action::Ignore),
            },
            Middleware::StatusSet { span, headers } => match event {
                Event::BodyRead { outcome } => {
                    let captured = capture(outcome);
                    let logged = LogEvent::Response {
                        message: "Received Request".to_owned(),
                        response_body: logged_body(&captured.bytes),
                    };
                    let attributes = logged_headers(&headers, "http.response.header");
                    let mut span = span;
                    span.attributes.merge(&attributes);
                    (
                        Middleware::ResponseLogged { span, headers, body: captured.bytes },
                        Action::LogResponse { event: logged, attributes, failure: captured.failure },
                    )
                },
                _ => (Middleware::StatusSet { span, headers }, Action::Ignore),
            },
            Middleware::ResponseLogged { span, headers, body } => match event {
                Event::Proceed => (Middleware::Done, Action::Respond { headers, body, span }),
                _ => (Middleware::ResponseLogged { span, headers, body }, Action::Ignore),
            },
            Middleware::Done => (Middleware::Done, Action::Ignore),
        }
    }
}

} // verus!
