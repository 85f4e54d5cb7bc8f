//! How a client's connection is handled, request by request.
use vstd::prelude::*;

verus! {

/// Why no request could be read from a client.
#[derive(Clone, Copy)]
pub enum RequestError {
    /// The client hung up after this many bytes of a request.
    IncompleteRequest(usize),
    /// The request cannot be parsed.
    MalformedRequest,
    /// The header that gives the length of the body makes no sense.
    InvalidContentLength,
    /// The body does not have the length that the header gives.
    ContentLengthMismatch,
    /// The body is too large.
    RequestBodyTooLarge,
    /// Reading from the connection failed.
    ConnectionError,
}

/// The status of a response that the proxy makes up itself.
#[derive(Clone, Copy)]
pub enum ErrorStatus {
    BadRequest,
    PayloadTooLarge,
    TooManyRequests,
    BadGateway,
    ServiceUnavailable,
}

impl ErrorStatus {
    /// The HTTP status code.
    pub open spec fn code_of(self) -> u16 {
        match self {
            ErrorStatus::BadRequest => 400,
            ErrorStatus::PayloadTooLarge => 413,
            ErrorStatus::TooManyRequests => 429,
            ErrorStatus::BadGateway => 502,
            ErrorStatus::ServiceUnavailable => 503,
        }
    }

    /// The HTTP status code.
    pub fn code(self) -> (code: u16)
        ensures
            code == self.code_of(),
    {
        match self {
            ErrorStatus::BadRequest => 400,
            ErrorStatus::PayloadTooLarge => 413,
            ErrorStatus::TooManyRequests => 429,
            ErrorStatus::BadGateway => 502,
            ErrorStatus::ServiceUnavailable => 503,
        }
    }
}

impl RequestError {
    /// The status that answers this error.
    pub open spec fn status_of(self) -> ErrorStatus {
        match self {
            RequestError::IncompleteRequest(_)
            | RequestError::MalformedRequest
            | RequestError::InvalidContentLength
            | RequestError::ContentLengthMismatch => ErrorStatus::BadRequest,
            RequestError::RequestBodyTooLarge => ErrorStatus::PayloadTooLarge,
            RequestError::ConnectionError => ErrorStatus::ServiceUnavailable,
        }
    }

    /// The status that answers this error.
    pub fn status(self) -> (status: ErrorStatus)
        ensures
            status == self.status_of(),
    {
        match self {
            RequestError::IncompleteRequest(_)
            | RequestError::MalformedRequest
            | RequestError::InvalidContentLength
            | RequestError::ContentLengthMismatch => ErrorStatus::BadRequest,
            RequestError::RequestBodyTooLarge => ErrorStatus::PayloadTooLarge,
            RequestError::ConnectionError => ErrorStatus::ServiceUnavailable,
        }
    }

    /// Whether the client is gone, so that there is nobody to answer: it hung up between two
    /// requests, or the connection broke.
    pub open spec fn ends_connection(self) -> bool {
        self is ConnectionError || self == RequestError::IncompleteRequest(0)
    }
}

/// What the handling of a connection is waiting for.
#[derive(Clone, Copy)]
pub enum ConnectionPhase {
    /// A connection to an upstream server.
    Connecting,
    /// The next request.
    Reading,
    /// The word of the rate limiter on the request that was read.
    Limiting,
    /// The request being sent on.
    Forwarding,
    /// The response of the upstream server.
    Answering,
    /// Nothing: the connection is done with.
    Closed,
}

/// What the handling of a connection is told.
pub enum ConnectionEvent {
    /// The search for an upstream server found one (`true`) or was given up.
    UpstreamConnected(bool),
    /// A request with this method was read, or none could be.
    RequestRead(Result<String, RequestError>),
    /// Whether the request is one too many.
    RateChecked(bool),
    /// The request was sent to the upstream server (`true`) or could not be.
    Forwarded(bool),
    /// The response of the upstream server was read (`true`) or could not be.
    ResponseRead(bool),
}

/// The value of a [`ConnectionEvent`].
pub enum ConnectionEventView {
    UpstreamConnected(bool),
    RequestRead(Result<Seq<char>, RequestError>),
    RateChecked(bool),
    Forwarded(bool),
    ResponseRead(bool),
}

impl View for ConnectionEvent {
    type V = ConnectionEventView;

    open spec fn view(&self) -> ConnectionEventView {
        match self {
            ConnectionEvent::UpstreamConnected(ok) => ConnectionEventView::UpstreamConnected(*ok),
            ConnectionEvent::RequestRead(Ok(method)) => ConnectionEventView::RequestRead(
                Ok(method@),
            ),
            ConnectionEvent::RequestRead(Err(error)) => ConnectionEventView::RequestRead(
                Err(*error),
            ),
            ConnectionEvent::RateChecked(limited) => ConnectionEventView::RateChecked(*limited),
            ConnectionEvent::Forwarded(ok) => ConnectionEventView::Forwarded(*ok),
            ConnectionEvent::ResponseRead(ok) => ConnectionEventView::ResponseRead(*ok),
        }
    }
}

/// What the handling of a connection asks for, to be done in the order given.
pub enum ConnectionAction {
    /// Read a request from the client, and report `RequestRead`.
    ReadRequest,
    /// Ask the rate limiter about this client, and report `RateChecked`.
    CheckRate { client_ip: String },
    /// Add `value` to the header `header` of the request that was read, send the request to the
    /// upstream server, and report `Forwarded`.
    Forward { header: String, value: String },
    /// Read the response of the upstream server to a request with this method, and report
    /// `ResponseRead`.
    ReadResponse { method: String },
    /// Send the response that was read to the client.
    Relay,
    /// Send the client a response of the proxy's own, with this status.
    Respond(ErrorStatus),
    /// Hang up.
    Close,
}

/// The value of a [`ConnectionAction`].
pub enum ConnectionActionView {
    ReadRequest,
    CheckRate { client_ip: Seq<char> },
    Forward { header: Seq<char>, value: Seq<char> },
    ReadResponse { method: Seq<char> },
    Relay,
    Respond(ErrorStatus),
    Close,
}

impl View for ConnectionAction {
    type V = ConnectionActionView;

    open spec fn view(&self) -> ConnectionActionView {
        match self {
            ConnectionAction::ReadRequest => ConnectionActionView::ReadRequest,
            ConnectionAction::CheckRate { client_ip } => ConnectionActionView::CheckRate {
                client_ip: client_ip@,
            },
            ConnectionAction::Forward { header, value } => ConnectionActionView::Forward {
                header: header@,
                value: value@,
            },
            ConnectionAction::ReadResponse { method } => ConnectionActionView::ReadResponse {
                method: method@,
            },
            ConnectionAction::Relay => ConnectionActionView::Relay,
            ConnectionAction::Respond(status) => ConnectionActionView::Respond(*status),
            ConnectionAction::Close => ConnectionActionView::Close,
        }
    }
}

impl DeepView for ConnectionAction {
    type V = ConnectionActionView;

    open spec fn deep_view(&self) -> ConnectionActionView {
        self@
    }
}

/// The connection of one client.
pub struct Connection {
    client_ip: String,
    method: String,
    phase: ConnectionPhase,
}

/// The value of a [`Connection`].
pub struct ConnectionView {
    /// The address of the client.
    pub client_ip: Seq<char>,
    /// The method of the last request that was read; empty before the first.
    pub method: Seq<char>,
    /// What the handling of the connection is waiting for.
    pub phase: ConnectionPhase,
}

impl View for Connection {
    type V = ConnectionView;

    closed spec fn view(&self) -> ConnectionView {
        ConnectionView { client_ip: self.client_ip@, method: self.method@, phase: self.phase }
    }
}

/// Answer with a status of the proxy's own and hang up.
pub open spec fn turn_away(status: ErrorStatus) -> Seq<ConnectionActionView> {
    seq![ConnectionActionView::Respond(status), ConnectionActionView::Close]
}

impl ConnectionView {
    /// Whether `event` is news of the kind that the handling of the connection waits for.
    pub open spec fn expects(self, event: ConnectionEventView) -> bool {
        match self.phase {
            ConnectionPhase::Connecting => event is UpstreamConnected,
            ConnectionPhase::Reading => event is RequestRead,
            ConnectionPhase::Limiting => event is RateChecked,
            ConnectionPhase::Forwarding => event is Forwarded,
            ConnectionPhase::Answering => event is ResponseRead,
            ConnectionPhase::Closed => false,
        }
    }

    /// What an event that is expected leads to: what is waited for next, and the actions that are
    /// asked for.
    pub open spec fn reaction(self, event: ConnectionEventView) -> (
        ConnectionPhase,
        Seq<ConnectionActionView>,
    ) {
        match event {
            ConnectionEventView::UpstreamConnected(true) => (
                ConnectionPhase::Reading,
                seq![ConnectionActionView::ReadRequest],
            ),
            ConnectionEventView::RequestRead(Ok(_)) => (
                ConnectionPhase::Limiting,
                seq![ConnectionActionView::CheckRate { client_ip: self.client_ip }],
            ),
            ConnectionEventView::RequestRead(Err(error)) => if error.ends_connection() {
                (ConnectionPhase::Closed, seq![ConnectionActionView::Close])
            } else {
                (
                    ConnectionPhase::Reading,
                    seq![
                        ConnectionActionView::Respond(error.status_of()),
                        ConnectionActionView::ReadRequest,
                    ],
                )
            },
            ConnectionEventView::RateChecked(true) => (
                ConnectionPhase::Closed,
                turn_away(ErrorStatus::TooManyRequests),
            ),
            ConnectionEventView::RateChecked(false) => (
                ConnectionPhase::Forwarding,
                seq![
                    ConnectionActionView::Forward {
                        header: "x-forwarded-for"@,
                        value: self.client_ip,
                    },
                ],
            ),
            ConnectionEventView::Forwarded(true) => (
                ConnectionPhase::Answering,
                seq![ConnectionActionView::ReadResponse { method: self.method }],
            ),
            ConnectionEventView::ResponseRead(true) => (
                ConnectionPhase::Reading,
                seq![ConnectionActionView::Relay, ConnectionActionView::ReadRequest],
            ),
            ConnectionEventView::UpstreamConnected(false)
            | ConnectionEventView::Forwarded(false)
            | ConnectionEventView::ResponseRead(false) => (
                ConnectionPhase::Closed,
                turn_away(ErrorStatus::BadGateway),
            ),
        }
    }

    /// The connection after an event.
    pub open spec fn after(self, event: ConnectionEventView) -> ConnectionView {
        ConnectionView {
            method: match event {
                ConnectionEventView::RequestRead(Ok(method)) => method,
                _ => self.method,
            },
            phase: self.reaction(event).0,
            ..self
        }
    }
}

/// One action.
fn just(action: ConnectionAction) -> (actions: Vec<ConnectionAction>)
    ensures
        actions.deep_view() == seq![action@],
{
    let actions = vec![action];
    assert(actions.deep_view() =~= seq![action@]);
    actions
}

/// Two actions.
fn both(first: ConnectionAction, second: ConnectionAction) -> (actions: Vec<ConnectionAction>)
    ensures
        actions.deep_view() == seq![first@, second@],
{
    let actions = vec![first, second];
    assert(actions.deep_view() =~= seq![first@, second@]);
    actions
}

impl Connection {
    /// A client has connected; an upstream server is being looked for.
    pub fn new(client_ip: &str) -> (connection: Connection)
        ensures
            connection@ == (ConnectionView {
                client_ip: client_ip@,
                method: Seq::empty(),
                phase: ConnectionPhase::Connecting,
            }),
    {
        Connection {
            client_ip: client_ip.to_owned(),
            method: String::new(),
            phase: ConnectionPhase::Connecting,
        }
    }

    /// Whether `event` is what the handling of the connection waits for.
    pub fn expects(&self, event: &ConnectionEvent) -> (expected: bool)
        ensures
            expected == self@.expects(event@),
    {
        match (self.phase, event) {
            (ConnectionPhase::Connecting, ConnectionEvent::UpstreamConnected(_)) => true,
            (ConnectionPhase::Reading, ConnectionEvent::RequestRead(_)) => true,
            (ConnectionPhase::Limiting, ConnectionEvent::RateChecked(_)) => true,
            (ConnectionPhase::Forwarding, ConnectionEvent::Forwarded(_)) => true,
            (ConnectionPhase::Answering, ConnectionEvent::ResponseRead(_)) => true,
            _ => false,
        }
    }

    /// Answers an event: what to do next about this client, in order.
    pub fn handle_connection(&mut self, event: ConnectionEvent) -> (actions: Vec<ConnectionAction>)
        requires
            old(self)@.expects(event@),
        ensures
            final(self)@ == old(self)@.after(event@),
            actions.deep_view() == old(self)@.reaction(event@).1,
    {
        match event {
            ConnectionEvent::UpstreamConnected(true) => {
                self.phase = ConnectionPhase::Reading;
                just(ConnectionAction::ReadRequest)
            },
            ConnectionEvent::RequestRead(Ok(method)) => {
                self.method = method;
                self.phase = ConnectionPhase::Limiting;
                just(ConnectionAction::CheckRate { client_ip: self.client_ip.clone() })
            },
            ConnectionEvent::RequestRead(Err(RequestError::IncompleteRequest(0)))
            | ConnectionEvent::RequestRead(Err(RequestError::ConnectionError)) => {
                self.phase = ConnectionPhase::Closed;
                just(ConnectionAction::Close)
            },
            ConnectionEvent::RequestRead(Err(error)) => {
                self.phase = ConnectionPhase::Reading;
                both(ConnectionAction::Respond(error.status()), ConnectionAction::ReadRequest)
            },
            ConnectionEvent::RateChecked(true) => {
                self.phase = ConnectionPhase::Closed;
                both(
                    ConnectionAction::Respond(ErrorStatus::TooManyRequests),
                    ConnectionAction::Close,
                )
            },
            ConnectionEvent::RateChecked(false) => {
                self.phase = ConnectionPhase::Forwarding;
                just(
                    ConnectionAction::Forward {
                        header: "x-forwarded-for".to_owned(),
                        value: self.client_ip.clone(),
                    },
                )
            },
            ConnectionEvent::Forwarded(true) => {
                self.phase = ConnectionPhase::Answering;
                just(ConnectionAction::ReadResponse { method: self.method.clone() })
            },
            ConnectionEvent::ResponseRead(true) => {
                self.phase = ConnectionPhase::Reading;
                both(ConnectionAction::Relay, ConnectionAction::ReadRequest)
            },
            ConnectionEvent::UpstreamConnected(false)
            | ConnectionEvent::Forwarded(false)
            | ConnectionEvent::ResponseRead(false) => {
                self.phase = ConnectionPhase::Closed;
                both(ConnectionAction::Respond(ErrorStatus::BadGateway), ConnectionAction::Close)
            },
        }
    }
}

/// The connection after a run of events.
pub open spec fn after_all(connection: ConnectionView, events: Seq<ConnectionEventView>) -> ConnectionView
    decreases events.len(),
{
    if events.len() == 0 {
        connection
    } else {
        after_all(connection, events.drop_last()).after(events.last())
    }
}

/// Whether each of `events` is what is waited for when it comes.
pub open spec fn orderly(connection: ConnectionView, events: Seq<ConnectionEventView>) -> bool
    decreases events.len(),
{
    events.len() > 0 ==> {
        &&& orderly(connection, events.drop_last())
        &&& after_all(connection, events.drop_last()).expects(events.last())
    }
}

/// Everything that is asked for over a run of events.
pub open spec fn all_actions(connection: ConnectionView, events: Seq<ConnectionEventView>) -> Seq<
    ConnectionActionView,
>
    decreases events.len(),
{
    if events.len() == 0 {
        Seq::empty()
    } else {
        all_actions(connection, events.drop_last()) + after_all(
            connection,
            events.drop_last(),
        ).reaction(events.last()).1
    }
}

/// Whether an event brings something that the client is owed an answer to: a request that was
/// read, one that was refused by the parser, or the news that no upstream server can be had.
pub open spec fn owed(event: ConnectionEventView) -> bool {
    match event {
        ConnectionEventView::UpstreamConnected(ok) => !ok,
        ConnectionEventView::RequestRead(Ok(_)) => true,
        ConnectionEventView::RequestRead(Err(error)) => !error.ends_connection(),
        _ => false,
    }
}

/// One if `counts`, else none.
pub open spec fn one_if(counts: bool) -> nat {
    if counts {
        1
    } else {
        0
    }
}

/// How many answers the client is owed for a run of events.
pub open spec fn owed_in_all(events: Seq<ConnectionEventView>) -> nat
    decreases events.len(),
{
    if events.len() == 0 {
        0
    } else {
        owed_in_all(events.drop_last()) + one_if(owed(events.last()))
    }
}

/// How many responses are sent to the client by `actions`.
pub open spec fn answers(actions: Seq<ConnectionActionView>) -> nat
    decreases actions.len(),
{
    if actions.len() == 0 {
        0
    } else {
        answers(actions.drop_last()) + one_if(actions.last() is Respond || actions.last() is Relay)
    }
}

/// Whether a request is being dealt with.
pub open spec fn pending(phase: ConnectionPhase) -> bool {
    phase is Limiting || phase is Forwarding || phase is Answering
}

proof fn lemma_answers_add(a: Seq<ConnectionActionView>, b: Seq<ConnectionActionView>)
    ensures
        answers(a + b) == answers(a) + answers(b),
    decreases b.len(),
{
    if b.len() == 0 {
        assert(a + b =~= a);
    } else {
        lemma_answers_add(a, b.drop_last());
        assert((a + b).drop_last() =~= a + b.drop_last());
        assert((a + b).last() == b.last());
    }
}

proof fn lemma_step_answers(connection: ConnectionView, event: ConnectionEventView)
    requires
        connection.expects(event),
    ensures
        answers(connection.reaction(event).1) + one_if(pending(connection.after(event).phase))
            == one_if(pending(connection.phase)) + one_if(owed(event)),
{
    reveal_with_fuel(answers, 3);
    let actions = connection.reaction(event).1;
    assert(actions.len() == 1 ==> actions.drop_last() =~= Seq::empty());
    assert(actions.len() == 2 ==> actions.drop_last() =~= seq![actions[0]]);
    assert(seq![actions[0]].drop_last() =~= Seq::empty());
}

/// Every request gets exactly one answer: at any time the client has been sent as many responses
/// as it was owed, except for the one request that is being dealt with, if there is one.
pub proof fn law_every_request_gets_one_answer(
    connection: ConnectionView,
    events: Seq<ConnectionEventView>,
)
    requires
        connection.phase is Connecting,
        orderly(connection, events),
    ensures
        answers(all_actions(connection, events)) + one_if(
            pending(after_all(connection, events).phase),
        ) == owed_in_all(events),
    decreases events.len(),
{
    if events.len() > 0 {
        let before = events.drop_last();
        law_every_request_gets_one_answer(connection, before);
        lemma_step_answers(after_all(connection, before), events.last());
        lemma_answers_add(
            all_actions(connection, before),
            after_all(connection, before).reaction(events.last()).1,
        );
    }
}

/// A request is sent on only straight after the rate limiter has let it through, which it was asked
/// about straight after the request had been read; and it then names the client in the header
/// `x-forwarded-for`.
pub proof fn law_only_admitted_requests_are_forwarded(
    connection: ConnectionView,
    events: Seq<ConnectionEventView>,
    i: int,
)
    requires
        connection.phase is Connecting,
        orderly(connection, events),
        events.len() > 0,
        ({
            let actions = after_all(connection, events.drop_last()).reaction(events.last()).1;
            0 <= i < actions.len() && actions[i] is Forward
        }),
    ensures
        events.len() >= 2,
        events.last() == ConnectionEventView::RateChecked(false),
        events[events.len() - 2] matches ConnectionEventView::RequestRead(Ok(_)),
        ({
            let actions = after_all(connection, events.drop_last()).reaction(events.last()).1;
            actions[i] == ConnectionActionView::Forward {
                header: "x-forwarded-for"@,
                value: connection.client_ip,
            }
        }),
{
    let before = events.drop_last();
    lemma_client_ip(connection, before);
    assert(before.len() > 0);
    assert(before.last() == events[events.len() - 2]);
    reveal_with_fuel(orderly, 3);
}

/// The response to a request is read with the method of that very request: the last one that was
/// read, which the limiter has let through and which has been sent on.
pub proof fn law_a_response_is_read_with_the_method_of_its_request(
    connection: ConnectionView,
    events: Seq<ConnectionEventView>,
    i: int,
)
    requires
        connection.phase is Connecting,
        orderly(connection, events),
        events.len() > 0,
        ({
            let actions = after_all(connection, events.drop_last()).reaction(events.last()).1;
            0 <= i < actions.len() && actions[i] is ReadResponse
        }),
    ensures
        events.len() >= 3,
        events.last() == ConnectionEventView::Forwarded(true),
        events[events.len() - 2] == ConnectionEventView::RateChecked(false),
        ({
            let actions = after_all(connection, events.drop_last()).reaction(events.last()).1;
            events[events.len() - 3] == ConnectionEventView::RequestRead(Ok(actions[i]->method))
        }),
{
    reveal_with_fuel(orderly, 4);
    reveal_with_fuel(after_all, 4);
    let before = events.drop_last();
    assert(before.len() > 0);
    assert(before.last() == events[events.len() - 2]);
    let earlier = before.drop_last();
    assert(earlier.len() > 0);
    assert(earlier.last() == events[events.len() - 3]);
}

proof fn lemma_client_ip(connection: ConnectionView, events: Seq<ConnectionEventView>)
    ensures
        after_all(connection, events).client_ip == connection.client_ip,
    decreases events.len(),
{
    if events.len() > 0 {
        lemma_client_ip(connection, events.drop_last());
    }
}

/// Each step ends with the one action whose outcome is then waited for, and the connection is hung
/// up exactly when nothing is waited for any more.
pub proof fn law_a_step_ends_with_what_it_waits_for(
    connection: ConnectionView,
    event: ConnectionEventView,
)
    requires
        connection.expects(event),
    ensures
        ({
            let (phase, actions) = connection.reaction(event);
            &&& actions.len() > 0
            &&& match phase {
                ConnectionPhase::Connecting => false,
                ConnectionPhase::Reading => actions.last() is ReadRequest,
                ConnectionPhase::Limiting => actions.last() is CheckRate,
                ConnectionPhase::Forwarding => actions.last() is Forward,
                ConnectionPhase::Answering => actions.last() is ReadResponse,
                ConnectionPhase::Closed => actions.last() is Close,
            }
        }),
{
}

/// A request that cannot be parsed is answered with its status and does not end the connection,
/// unless the client is gone.
pub proof fn law_a_bad_request_is_answered_and_the_next_one_read(
    connection: ConnectionView,
    error: RequestError,
)
    requires
        connection.phase is Reading,
        !error.ends_connection(),
    ensures
        connection.after(ConnectionEventView::RequestRead(Err(error))) == connection,
        connection.reaction(ConnectionEventView::RequestRead(Err(error))).1 == seq![
            ConnectionActionView::Respond(error.status_of()),
            ConnectionActionView::ReadRequest,
        ],
        error.status_of().code_of() == 400 || error.status_of().code_of() == 413,
{
}

} // verus!
