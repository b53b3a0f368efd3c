use network_decisions::error::{connect_error, unreachable_sandbox};
use network_decisions::request::{line_of, snapshot_request, snapshot_response, stream_request};
use network_decisions::stream::{
    local_network_decision_stream, parse_done_line, DoneLine, StreamInput, StreamPhase,
};
use network_decisions::{
    DecisionAction, DecisionLog, DecisionPhase, DecisionRecord, MicrosandboxError,
    NetworkDecisionEnd, NetworkDecisionEvent, NetworkDecisionItem, NetworkDecisionOptions,
    NetworkDecisionStream,
};

fn event() -> NetworkDecisionEvent {
    DecisionLog::new().emit(DecisionRecord {
        phase: DecisionPhase::Tcp,
        action: DecisionAction::Allow,
        reason: "policy_allow".into(),
        destination_host: None,
        destination_ip: None,
        destination_port: None,
        transport: "tcp".into(),
        protocol: None,
        sni: None,
        http_authority: None,
        correlation_id: None,
        matched_rule: None,
    })
}

fn done(done: bool, reason: Option<&str>) -> Option<DoneLine> {
    Some(DoneLine {
        done,
        reason: reason.map(String::from),
    })
}

fn reading() -> NetworkDecisionStream {
    let mut stream =
        local_network_decision_stream("box".into(), NetworkDecisionOptions::default());
    assert_eq!(stream.phase(), StreamPhase::Connecting);
    assert!(stream.step(StreamInput::Connected).is_none());
    assert_eq!(stream.phase(), StreamPhase::Sending);
    assert!(stream.step(StreamInput::Sent).is_none());
    assert_eq!(stream.phase(), StreamPhase::Reading);
    stream
}

fn message(item: Option<Result<NetworkDecisionItem, MicrosandboxError>>) -> String {
    match item {
        Some(Err(MicrosandboxError::Runtime(message))) => message,
        other => panic!("expected a runtime error, got {other:?}"),
    }
}

#[test]
fn requests_are_single_json_lines() {
    let opts = NetworkDecisionOptions {
        after_sequence: 7,
        follow: true,
    };
    assert_eq!(
        snapshot_request(opts).unwrap(),
        "{\"after\":7,\"op\":\"network_decisions\"}\n"
    );
    assert_eq!(
        stream_request(opts).unwrap(),
        "{\"after\":7,\"follow\":true,\"op\":\"network_decision_stream\"}\n"
    );
    let stream = local_network_decision_stream("box".into(), NetworkDecisionOptions::default());
    assert_eq!(stream.name(), "box");
    assert_eq!(
        stream.request().unwrap(),
        "{\"after\":0,\"follow\":false,\"op\":\"network_decision_stream\"}\n"
    );
    let largest = NetworkDecisionOptions {
        after_sequence: u64::MAX,
        follow: false,
    };
    assert_eq!(
        snapshot_request(largest).unwrap(),
        "{\"after\":18446744073709551615,\"op\":\"network_decisions\"}\n"
    );
}

#[test]
fn a_text_that_could_not_be_written_is_a_json_error() {
    assert_eq!(line_of(Ok("{}".into())).unwrap(), "{}\n");
    let broken = serde_json::from_str::<bool>("?").unwrap_err();
    assert!(matches!(
        line_of(Err(broken)),
        Err(MicrosandboxError::Json(_))
    ));
}

#[test]
fn an_answer_without_a_snapshot_is_an_error() {
    let snapshot = DecisionLog::new().snapshot_after(0);
    assert_eq!(snapshot_response(Some(snapshot.clone())).unwrap(), snapshot);
    match snapshot_response(None) {
        Err(MicrosandboxError::Runtime(message)) => {
            assert_eq!(message, "control response missing network decisions")
        }
        other => panic!("expected an error, got {other:?}"),
    }
}

#[test]
fn done_lines_tell_how_the_stream_ended() {
    assert_eq!(parse_done_line(&None), None);
    assert_eq!(parse_done_line(&done(false, Some("sandbox_stopped"))), None);
    assert_eq!(
        parse_done_line(&done(true, Some("sandbox_stopped"))),
        Some(NetworkDecisionEnd::SandboxStopped)
    );
    assert_eq!(
        parse_done_line(&done(true, Some("drained"))),
        Some(NetworkDecisionEnd::Drained)
    );
    assert_eq!(
        parse_done_line(&done(true, None)),
        Some(NetworkDecisionEnd::Drained)
    );
}

#[test]
fn events_are_yielded_and_then_the_end() {
    let mut stream = reading();
    let sent = event();
    for parsed in [None, done(false, Some("policy_allow"))] {
        assert!(stream.step(StreamInput::Line(parsed)).is_none());
        assert_eq!(stream.phase(), StreamPhase::Parsing);
        match stream.step(StreamInput::Parsed(Ok(sent.clone()))) {
            Some(Ok(NetworkDecisionItem::Event(event))) => assert_eq!(event, sent),
            other => panic!("expected an event, got {other:?}"),
        }
    }
    match stream.step(StreamInput::Line(done(true, None))) {
        Some(Ok(item)) => match item.clone() {
            NetworkDecisionItem::End(end) => assert_eq!(end, NetworkDecisionEnd::Drained),
            other => panic!("expected the end, got {other:?}"),
        },
        other => panic!("expected the end, got {other:?}"),
    }
    assert_eq!(stream.phase(), StreamPhase::Ended);
    assert!(stream.step(StreamInput::EndOfFile).is_none());
    assert!(stream.step(StreamInput::Connected).is_none());
    assert!(stream
        .step(StreamInput::Line(done(true, None)))
        .is_none());
}

/// A stream that has yielded one event and is being read.
fn after_an_event() -> NetworkDecisionStream {
    let mut stream = reading();
    let sent = event();
    assert!(stream.step(StreamInput::Line(None)).is_none());
    match stream.step(StreamInput::Parsed(Ok(sent.clone()))) {
        Some(Ok(NetworkDecisionItem::Event(event))) => assert_eq!(event, sent),
        other => panic!("expected an event, got {other:?}"),
    }
    assert_eq!(stream.phase(), StreamPhase::Reading);
    stream
}

#[test]
fn events_are_yielded_whatever_ends_the_stream() {
    let mut stream = after_an_event();
    assert_eq!(
        message(stream.step(StreamInput::ReadFailed("reset".into()))),
        "network decision stream read failed: reset"
    );
    assert_eq!(stream.phase(), StreamPhase::Ended);

    let mut stream = after_an_event();
    let broken = serde_json::from_str::<bool>("?").unwrap_err();
    assert!(stream.step(StreamInput::Line(done(false, None))).is_none());
    assert!(matches!(
        stream.step(StreamInput::Parsed(Err(broken))),
        Some(Err(MicrosandboxError::Json(_)))
    ));
    assert_eq!(stream.phase(), StreamPhase::Ended);

    let mut stream = after_an_event();
    assert!(matches!(
        stream.step(StreamInput::EndOfFile),
        Some(Ok(NetworkDecisionItem::End(
            NetworkDecisionEnd::SandboxStopped
        )))
    ));
    assert_eq!(stream.phase(), StreamPhase::Ended);
}

#[test]
fn a_closed_socket_means_that_the_sandbox_stopped() {
    let mut stream = reading();
    assert!(matches!(
        stream.step(StreamInput::EndOfFile),
        Some(Ok(NetworkDecisionItem::End(
            NetworkDecisionEnd::SandboxStopped
        )))
    ));
    assert_eq!(stream.phase(), StreamPhase::Ended);
}

#[test]
fn failures_end_the_stream_with_their_messages() {
    let opts = NetworkDecisionOptions::default();
    let mut stream = local_network_decision_stream("my \"box\"\n".into(), opts);
    assert_eq!(
        message(stream.step(StreamInput::ConnectFailed("refused".into()))),
        "failed to reach a runtime control socket for sandbox \"my \\\"box\\\"\\n\": refused"
    );
    assert_eq!(stream.phase(), StreamPhase::Ended);

    let mut stream = local_network_decision_stream("box".into(), opts);
    assert_eq!(
        message(stream.step(StreamInput::Unsupported)),
        "network decision follow requires a unix control socket"
    );
    assert_eq!(stream.phase(), StreamPhase::Ended);

    let mut stream = local_network_decision_stream("box".into(), opts);
    stream.step(StreamInput::Connected);
    assert_eq!(
        message(stream.step(StreamInput::SendFailed("broken pipe".into()))),
        "network decision stream request failed: broken pipe"
    );

    let mut stream = reading();
    assert_eq!(
        message(stream.step(StreamInput::ReadFailed("reset".into()))),
        "network decision stream read failed: reset"
    );
    assert!(stream.step(StreamInput::EndOfFile).is_none());

    let mut stream = reading();
    stream.step(StreamInput::Line(None));
    let broken = serde_json::from_str::<bool>("?").unwrap_err();
    assert!(matches!(
        stream.step(StreamInput::Parsed(Err(broken))),
        Some(Err(MicrosandboxError::Json(_)))
    ));
    assert_eq!(stream.phase(), StreamPhase::Ended);
}

#[test]
fn names_are_quoted_in_messages() {
    assert_eq!(
        unreachable_sandbox("<box>", "gone"),
        "failed to reach a runtime control socket for sandbox <box>: gone"
    );
    match connect_error("box", "gone") {
        MicrosandboxError::Runtime(message) => assert_eq!(
            message,
            "failed to reach a runtime control socket for sandbox \"box\": gone"
        ),
        other => panic!("expected a runtime error, got {other:?}"),
    }
}

#[test]
fn a_line_without_done_is_parsed_as_an_event() {
    let mut stream = reading();
    assert!(stream
        .step(StreamInput::Line(done(false, Some("sandbox_stopped"))))
        .is_none());
    assert_eq!(stream.phase(), StreamPhase::Parsing);
}
