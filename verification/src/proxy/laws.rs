//! What every step of a client's connection keeps to, whatever came before it.
use crate::proxy::connection::{
    after_all, orderly, ConnectionAction, ConnectionActionView, ConnectionEvent,
    ConnectionEventView, ConnectionView, ErrorStatus, RequestError,
};
use vstd::prelude::*;

verus! {

/// Each phase waits for news of its own kind, whatever the news is; a closed connection waits for
/// none.
pub proof fn law_a_connection_takes_any_news_of_its_kind(
    connection: ConnectionView,
    event: ConnectionEventView,
)
    ensures
        connection.expects(event) <==> match event {
            ConnectionEventView::UpstreamConnected(_) => connection.phase is Connecting,
            ConnectionEventView::RequestRead(_) => connection.phase is Reading,
            ConnectionEventView::RateChecked(_) => connection.phase is Limiting,
            ConnectionEventView::Forwarded(_) => connection.phase is Forwarding,
            ConnectionEventView::ResponseRead(_) => connection.phase is Answering,
        },
{
}

/// The answer that goes to the client is settled by the news alone, whoever the client is and
/// whatever the method of the request: a response that was read is relayed, and is never replaced
/// by a response of the proxy's own; status 502 comes exactly if the upstream server could not be
/// connected to, did not take the request or gave no response; 429 exactly if the rate limiter
/// refuses; 413 exactly if the body is too large; 400 exactly if the request is faulty otherwise,
/// or breaks off after its first byte. The proxy sends no other answer.
pub proof fn law_the_answer_fits_the_news(connection: ConnectionView, event: ConnectionEventView)
    requires
        connection.expects(event),
    ensures
        ({
            let actions = connection.reaction(event).1;
            &&& actions.contains(ConnectionActionView::Relay)
                <==> event == ConnectionEventView::ResponseRead(true)
            &&& actions.contains(ConnectionActionView::Respond(ErrorStatus::BadGateway)) <==> {
                ||| event == ConnectionEventView::UpstreamConnected(false)
                ||| event == ConnectionEventView::Forwarded(false)
                ||| event == ConnectionEventView::ResponseRead(false)
            }
            &&& actions.contains(ConnectionActionView::Respond(ErrorStatus::TooManyRequests))
                <==> event == ConnectionEventView::RateChecked(true)
            &&& actions.contains(ConnectionActionView::Respond(ErrorStatus::PayloadTooLarge))
                <==> event == ConnectionEventView::RequestRead(
                Err(RequestError::RequestBodyTooLarge),
            )
            &&& actions.contains(ConnectionActionView::Respond(ErrorStatus::BadRequest)) <==> {
                ||| event == ConnectionEventView::RequestRead(Err(RequestError::MalformedRequest))
                ||| event == ConnectionEventView::RequestRead(
                    Err(RequestError::InvalidContentLength),
                )
                ||| event == ConnectionEventView::RequestRead(
                    Err(RequestError::ContentLengthMismatch),
                )
                ||| event matches ConnectionEventView::RequestRead(
                    Err(RequestError::IncompleteRequest(n)),
                ) && n > 0
            }
            &&& !actions.contains(ConnectionActionView::Respond(ErrorStatus::ServiceUnavailable))
        }),
{
    let actions = connection.reaction(event).1;
    assert(actions.contains(actions[0]));
}

/// What is asked for next is settled by the news, too. The rate limiter is asked about every request
/// that was read, and about the client of this connection; a request that it lets through is sent on
/// with the address of that client in the header `x-forwarded-for`; a request that was sent on has
/// its response read, with the method of the request. A request is read once there is a connection
/// to an upstream server, after each response, and after each answer to a faulty request. The proxy
/// hangs up exactly on failures of the upstream server, refusals of the limiter, and clients that
/// are gone.
pub proof fn law_the_next_step_fits_the_news(
    connection: ConnectionView,
    event: ConnectionEventView,
    text: Seq<char>,
    other: Seq<char>,
)
    requires
        connection.expects(event),
    ensures
        ({
            let actions = connection.reaction(event).1;
            &&& actions.contains(ConnectionActionView::CheckRate { client_ip: text }) <==> {
                &&& event matches ConnectionEventView::RequestRead(Ok(_))
                &&& text == connection.client_ip
            }
            &&& actions.contains(ConnectionActionView::Forward { header: text, value: other })
                <==> {
                &&& event == ConnectionEventView::RateChecked(false)
                &&& text == "x-forwarded-for"@
                &&& other == connection.client_ip
            }
            &&& actions.contains(ConnectionActionView::ReadResponse { method: text }) <==> {
                &&& event == ConnectionEventView::Forwarded(true)
                &&& text == connection.method
            }
            &&& actions.contains(ConnectionActionView::Close) <==> {
                ||| event == ConnectionEventView::UpstreamConnected(false)
                ||| event == ConnectionEventView::Forwarded(false)
                ||| event == ConnectionEventView::ResponseRead(false)
                ||| event == ConnectionEventView::RateChecked(true)
                ||| event == ConnectionEventView::RequestRead(Err(RequestError::ConnectionError))
                ||| event == ConnectionEventView::RequestRead(
                    Err(RequestError::IncompleteRequest(0)),
                )
            }
            &&& actions.contains(ConnectionActionView::ReadRequest) <==> {
                ||| event == ConnectionEventView::UpstreamConnected(true)
                ||| event == ConnectionEventView::ResponseRead(true)
                ||| event matches ConnectionEventView::RequestRead(Err(error)) && !(error
                    is ConnectionError) && error != RequestError::IncompleteRequest(0)
            }
        }),
{
    let actions = connection.reaction(event).1;
    assert(actions.contains(actions[0]));
    assert(actions.len() == 2 ==> actions.contains(actions[1]));
}

/// A step asks for nothing twice, and an answer to the client comes before anything else.
pub proof fn law_a_step_answers_first(connection: ConnectionView, event: ConnectionEventView)
    requires
        connection.expects(event),
    ensures
        ({
            let actions = connection.reaction(event).1;
            &&& 1 <= actions.len() <= 2
            &&& actions.no_duplicates()
            &&& actions.len() == 2 <==> (actions[0] is Relay || actions[0] is Respond)
            &&& !(actions.last() is Relay || actions.last() is Respond)
        }),
{
}

/// What a connection remembers: the client for good, and the method of the last request that was
/// read, letter by letter.
pub proof fn law_a_connection_remembers_client_and_method(
    connection: ConnectionView,
    event: ConnectionEventView,
)
    ensures
        connection.after(event).client_ip == connection.client_ip,
        connection.after(event).phase == connection.reaction(event).0,
        event matches ConnectionEventView::RequestRead(Ok(method)) ==> connection.after(
            event,
        ).method == method,
        !(event matches ConnectionEventView::RequestRead(Ok(_))) ==> connection.after(event).method
            == connection.method,
{
}

/// Two connections of one client react to the same news in the same way, whatever the methods of
/// their requests; only the method with which the response is read can differ.
pub proof fn law_the_method_only_matters_for_reading_the_response(
    a: ConnectionView,
    b: ConnectionView,
    event: ConnectionEventView,
)
    requires
        a.client_ip == b.client_ip,
        a.expects(event),
        b.expects(event),
    ensures
        event != ConnectionEventView::Forwarded(true) ==> a.reaction(event) == b.reaction(event),
        a.method == b.method ==> a.reaction(event) == b.reaction(event),
        a.reaction(event).0 == b.reaction(event).0,
{
}

/// In every orderly run from the beginning of a connection: once a response of the upstream server
/// has been read, the next thing is to relay it, and then to read the next request; and where the
/// proxy answers with status 502, the last thing that happened was a failure of the upstream server.
pub proof fn law_in_every_run_responses_are_relayed(
    connection: ConnectionView,
    events: Seq<ConnectionEventView>,
)
    requires
        connection.phase is Connecting,
        orderly(connection, events),
        events.len() > 0,
    ensures
        ({
            let actions = after_all(connection, events.drop_last()).reaction(events.last()).1;
            &&& events.last() == ConnectionEventView::ResponseRead(true) ==> actions == seq![
                ConnectionActionView::Relay,
                ConnectionActionView::ReadRequest,
            ]
            &&& actions.contains(ConnectionActionView::Relay) ==> {
                &&& events.last() == ConnectionEventView::ResponseRead(true)
                &&& events.len() >= 2
                &&& events[events.len() - 2] == ConnectionEventView::Forwarded(true)
            }
            &&& actions.contains(ConnectionActionView::Respond(ErrorStatus::BadGateway)) ==> {
                ||| events.last() == ConnectionEventView::UpstreamConnected(false)
                ||| events.last() == ConnectionEventView::Forwarded(false)
                ||| events.last() == ConnectionEventView::ResponseRead(false)
            }
        }),
{
    reveal_with_fuel(orderly, 3);
    reveal_with_fuel(after_all, 3);
    let before = events.drop_last();
    let now = after_all(connection, before);
    law_the_answer_fits_the_news(now, events.last());
    if events.last() == ConnectionEventView::ResponseRead(true) {
        assert(before.len() > 0);
        assert(before.last() == events[events.len() - 2]);
    }
}

/// The status codes are those that HTTP gives to the statuses, and each error in reading a request
/// has the status that fits it.
pub proof fn law_statuses_are_those_of_http(error: RequestError)
    ensures
        ErrorStatus::BadRequest.code_of() == 400,
        ErrorStatus::PayloadTooLarge.code_of() == 413,
        ErrorStatus::TooManyRequests.code_of() == 429,
        ErrorStatus::BadGateway.code_of() == 502,
        ErrorStatus::ServiceUnavailable.code_of() == 503,
        error.status_of().code_of() == if error is RequestBodyTooLarge {
            413u16
        } else if error is ConnectionError {
            503u16
        } else {
            400u16
        },
{
}

/// The value of an event, or of an action, holds all that it says.
pub proof fn law_values_of_a_connection_hold_everything(
    event: ConnectionEvent,
    action: ConnectionAction,
)
    ensures
        match event {
            ConnectionEvent::UpstreamConnected(ok) => event@
                == ConnectionEventView::UpstreamConnected(ok),
            ConnectionEvent::RequestRead(Ok(method)) => event@ == ConnectionEventView::RequestRead(
                Ok(method@),
            ),
            ConnectionEvent::RequestRead(Err(error)) => event@ == ConnectionEventView::RequestRead(
                Err(error),
            ),
            ConnectionEvent::RateChecked(limited) => event@ == ConnectionEventView::RateChecked(
                limited,
            ),
            ConnectionEvent::Forwarded(ok) => event@ == ConnectionEventView::Forwarded(ok),
            ConnectionEvent::ResponseRead(ok) => event@ == ConnectionEventView::ResponseRead(ok),
        },
        match action {
            ConnectionAction::ReadRequest => action@ == ConnectionActionView::ReadRequest,
            ConnectionAction::CheckRate { client_ip } => action@
                == (ConnectionActionView::CheckRate { client_ip: client_ip@ }),
            ConnectionAction::Forward { header, value } => action@
                == (ConnectionActionView::Forward { header: header@, value: value@ }),
            ConnectionAction::ReadResponse { method } => action@
                == (ConnectionActionView::ReadResponse { method: method@ }),
            ConnectionAction::Relay => action@ == ConnectionActionView::Relay,
            ConnectionAction::Respond(status) => action@ == ConnectionActionView::Respond(status),
            ConnectionAction::Close => action@ == ConnectionActionView::Close,
        },
        action.deep_view() == action@,
{
}

} // verus!
