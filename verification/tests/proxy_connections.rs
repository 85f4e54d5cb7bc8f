use deetbeam::proxy::connection::{
    Connection, ConnectionAction, ConnectionEvent, ErrorStatus, RequestError,
};

fn shown(actions: &[ConnectionAction]) -> Vec<String> {
    actions
        .iter()
        .map(|action| match action {
            ConnectionAction::ReadRequest => "read request".to_string(),
            ConnectionAction::CheckRate { client_ip } => format!("check {}", client_ip),
            ConnectionAction::Forward { header, value } => format!("forward {}={}", header, value),
            ConnectionAction::ReadResponse { method } => format!("read response to {}", method),
            ConnectionAction::Relay => "relay".to_string(),
            ConnectionAction::Respond(status) => format!("respond {}", status.code()),
            ConnectionAction::Close => "close".to_string(),
        })
        .collect()
}

fn tell(connection: &mut Connection, event: ConnectionEvent) -> Vec<String> {
    assert!(connection.expects(&event));
    shown(&connection.handle_connection(event))
}

/// A request with this method was read.
fn request(method: &str) -> ConnectionEvent {
    ConnectionEvent::RequestRead(Ok(method.to_string()))
}

/// A connection that waits for a request.
fn reading() -> Connection {
    let mut connection = Connection::new("10.1.2.3");
    tell(&mut connection, ConnectionEvent::UpstreamConnected(true));
    connection
}

#[test]
fn a_request_goes_through() {
    let mut connection = Connection::new("10.1.2.3");
    assert_eq!(tell(&mut connection, ConnectionEvent::UpstreamConnected(true)), vec!["read request"]);
    for _ in 0..2 {
        assert_eq!(
            tell(&mut connection, request("GET")),
            vec!["check 10.1.2.3"]
        );
        assert_eq!(
            tell(&mut connection, ConnectionEvent::RateChecked(false)),
            vec!["forward x-forwarded-for=10.1.2.3"]
        );
        assert_eq!(tell(&mut connection, ConnectionEvent::Forwarded(true)), vec!["read response to GET"]);
        assert_eq!(
            tell(&mut connection, ConnectionEvent::ResponseRead(true)),
            vec!["relay", "read request"]
        );
    }
}

#[test]
fn without_an_upstream_server_the_client_is_turned_away() {
    let mut connection = Connection::new("10.1.2.3");
    assert_eq!(
        tell(&mut connection, ConnectionEvent::UpstreamConnected(false)),
        vec!["respond 502", "close"]
    );
    assert!(!connection.expects(&request("GET")));
}

#[test]
fn a_client_that_is_gone_gets_no_answer() {
    for error in [RequestError::IncompleteRequest(0), RequestError::ConnectionError] {
        let mut connection = reading();
        assert_eq!(tell(&mut connection, ConnectionEvent::RequestRead(Err(error))), vec!["close"]);
    }
}

#[test]
fn a_bad_request_is_answered_and_the_next_one_read() {
    let mut connection = reading();
    for (error, answer) in [
        (RequestError::IncompleteRequest(1), "respond 400"),
        (RequestError::MalformedRequest, "respond 400"),
        (RequestError::InvalidContentLength, "respond 400"),
        (RequestError::ContentLengthMismatch, "respond 400"),
        (RequestError::RequestBodyTooLarge, "respond 413"),
    ] {
        assert_eq!(
            tell(&mut connection, ConnectionEvent::RequestRead(Err(error))),
            vec![answer, "read request"]
        );
    }
}

#[test]
fn a_request_too_many_is_refused() {
    let mut connection = reading();
    tell(&mut connection, request("GET"));
    assert_eq!(
        tell(&mut connection, ConnectionEvent::RateChecked(true)),
        vec!["respond 429", "close"]
    );
}

#[test]
fn trouble_with_the_upstream_server_is_reported() {
    let mut connection = reading();
    tell(&mut connection, request("GET"));
    tell(&mut connection, ConnectionEvent::RateChecked(false));
    assert_eq!(
        tell(&mut connection, ConnectionEvent::Forwarded(false)),
        vec!["respond 502", "close"]
    );
    let mut connection = reading();
    tell(&mut connection, request("GET"));
    tell(&mut connection, ConnectionEvent::RateChecked(false));
    tell(&mut connection, ConnectionEvent::Forwarded(true));
    assert_eq!(
        tell(&mut connection, ConnectionEvent::ResponseRead(false)),
        vec!["respond 502", "close"]
    );
}

#[test]
fn statuses_are_those_of_http() {
    for (status, expected) in [
        (ErrorStatus::BadRequest, http::StatusCode::BAD_REQUEST),
        (ErrorStatus::PayloadTooLarge, http::StatusCode::PAYLOAD_TOO_LARGE),
        (ErrorStatus::TooManyRequests, http::StatusCode::TOO_MANY_REQUESTS),
        (ErrorStatus::BadGateway, http::StatusCode::BAD_GATEWAY),
        (ErrorStatus::ServiceUnavailable, http::StatusCode::SERVICE_UNAVAILABLE),
    ] {
        assert_eq!(status.code(), expected.as_u16());
    }
    assert_eq!(RequestError::ConnectionError.status().code(), 503);
    assert_eq!(RequestError::IncompleteRequest(0).status().code(), 400);
}

#[test]
fn each_request_gets_one_answer() {
    let mut connection = reading();
    let mut answers = 0;
    for round in 0..50 {
        let bad = round % 3 == 0;
        let events = if bad {
            vec![ConnectionEvent::RequestRead(Err(RequestError::MalformedRequest))]
        } else {
            vec![
                request("GET"),
                ConnectionEvent::RateChecked(false),
                ConnectionEvent::Forwarded(true),
                ConnectionEvent::ResponseRead(true),
            ]
        };
        for event in events {
            for action in tell(&mut connection, event) {
                if action == "relay" || action.starts_with("respond") {
                    answers += 1;
                }
            }
        }
        assert_eq!(answers, round + 1);
    }
}

#[test]
fn a_response_is_read_with_the_method_of_its_request() {
    let mut connection = reading();
    for method in ["GET", "HEAD", "POST"] {
        tell(&mut connection, request(method));
        tell(&mut connection, ConnectionEvent::RateChecked(false));
        assert_eq!(
            tell(&mut connection, ConnectionEvent::Forwarded(true)),
            vec![format!("read response to {}", method)]
        );
        tell(&mut connection, ConnectionEvent::ResponseRead(true));
        // A request that cannot be read in between has no method.
        tell(&mut connection, ConnectionEvent::RequestRead(Err(RequestError::MalformedRequest)));
    }
}
