//! Whole connections to the daemon.

use beacon::connection::{Connection, Input, Reaction};
use beacon::daemon::{DaemonRequest, DaemonResponse, ResponseData};
use beacon::dialogue::{Action, Event};

fn request(line: &str, request: DaemonRequest) -> Input {
    Input::Line {
        line: line.to_string(),
        reading: Ok(request),
    }
}

fn no_request(line: &str, problem: &str) -> Input {
    Input::Line {
        line: line.to_string(),
        reading: Err(problem.to_string()),
    }
}

fn take(connection: Connection, input: Input) -> Reaction {
    assert!(connection.can_take(&input));
    connection.take(input)
}

/// Hands over the inputs, does the work by `work`, and collects the responses.
fn converse(
    inputs: Vec<Input>,
    work: impl Fn(Action) -> Event,
) -> (Vec<DaemonResponse>, Connection) {
    let mut connection = Connection::open();
    let mut responses = Vec::new();
    for input in inputs {
        let mut reaction = take(connection, input);
        while let Some(action) = reaction.work.take() {
            assert!(reaction.response.is_none());
            reaction = take(reaction.connection, Input::Work(work(action)));
        }
        responses.extend(reaction.response);
        connection = reaction.connection;
    }
    (responses, connection)
}

fn removes_odd_tracks(action: Action) -> Event {
    match action {
        Action::RemoveTrack { track_id } => Event::Removed(track_id % 2 == 1),
        Action::ListTracks => Event::Tracks(Vec::new()),
        other => panic!("asked: {:?}", other),
    }
}

#[test]
fn each_line_gets_one_response() {
    let inputs = vec![
        request("{\"Ping\":null}\n", DaemonRequest::Ping),
        no_request(" \r\n", "EOF while parsing"),
        no_request("what?\n", "expected value"),
        request("{}\n", DaemonRequest::Remove { track_id: 1 }),
        no_request("\n", "EOF while parsing"),
        request("{}\n", DaemonRequest::List),
        no_request("{\n", "EOF"),
        request("{}\n", DaemonRequest::Remove { track_id: 2 }),
    ];
    let (responses, connection) = converse(inputs, removes_odd_tracks);
    assert!(matches!(connection, Connection::Reading));
    assert_eq!(responses.len(), 6);
    assert_eq!(responses[0].message, "pong");
    assert_eq!(responses[1].message, "Invalid request: expected value");
    assert!(!responses[1].success);
    assert!(responses[1].data.is_none());
    assert!(responses[2].success);
    assert!(matches!(responses[3].data, Some(ResponseData::Tracks(_))));
    assert_eq!(responses[4].message, "Invalid request: EOF");
    assert!(!responses[5].success);
}

#[test]
fn how_reading_ends() {
    let (responses, connection) = converse(vec![Input::End], removes_odd_tracks);
    assert!(responses.is_empty());
    assert!(matches!(connection, Connection::Closed));
    assert!(!connection.can_take(&Input::End));

    let (responses, connection) = converse(
        vec![request("{}", DaemonRequest::Shutdown)],
        removes_odd_tracks,
    );
    assert_eq!(responses[0].message, "Shutting down...");
    assert!(matches!(connection, Connection::ShuttingDown));

    let (responses, connection) = converse(
        vec![request("{}", DaemonRequest::MonitorSubscribe)],
        removes_odd_tracks,
    );
    assert_eq!(responses.len(), 1);
    assert!(matches!(connection, Connection::Streaming));
    assert!(!connection.can_take(&no_request("more", "why")));
}

#[test]
fn a_blank_line_is_not_read_as_a_request() {
    let (responses, connection) = converse(
        vec![request("\u{2003}\n", DaemonRequest::Shutdown)],
        removes_odd_tracks,
    );
    assert!(responses.is_empty());
    assert!(matches!(connection, Connection::Reading));
}

#[test]
fn an_open_answer_takes_only_its_work() {
    let r = take(
        Connection::open(),
        request("{}", DaemonRequest::Remove { track_id: 4 }),
    );
    assert!(matches!(r.work, Some(Action::RemoveTrack { track_id: 4 })));
    assert!(r.response.is_none());
    assert!(!r.connection.can_take(&request("{}", DaemonRequest::Ping)));
    assert!(!r.connection.can_take(&Input::End));
    assert!(!r.connection.can_take(&Input::Work(Event::Inserted(1))));
    let r = take(
        r.connection,
        Input::Work(Event::Failed("locked".to_string())),
    );
    assert!(!r.response.unwrap().success);
    assert!(matches!(r.connection, Connection::Reading));
}
