use network_decisions::python::{action_label, next_step, phase_label, PyStep};
use network_decisions::{
    convert_event, DecisionAction, DecisionPhase, IpAddr, MicrosandboxError, NetworkDecisionEnd,
    NetworkDecisionEvent, NetworkDecisionItem,
};

fn event() -> NetworkDecisionEvent {
    NetworkDecisionEvent {
        sequence: 1,
        timestamp: "2026-01-01T00:00:00.000Z".into(),
        phase: DecisionPhase::Http,
        action: DecisionAction::Allow,
        reason: "policy_allow".into(),
        destination_host: Some("api.example.com".into()),
        destination_ip: Some(IpAddr::v4(1, 2, 3, 4)),
        destination_port: Some(443),
        transport: "tcp".into(),
        protocol: Some("http".into()),
        sni: Some("sni.example.com".into()),
        http_authority: Some("authority.example.com".into()),
        correlation_id: Some("tcp-1".into()),
        matched_rule: Some("rule[0] allow domain:api.example.com".into()),
        dropped_count: 2,
        earliest_retained_sequence: 3,
    }
}

#[test]
fn every_field_is_shown() {
    let shown = convert_event(&event());
    assert_eq!(shown.sequence, 1);
    assert_eq!(shown.timestamp, "2026-01-01T00:00:00.000Z");
    assert_eq!(shown.phase, "http");
    assert_eq!(shown.action, "allow");
    assert_eq!(shown.reason, "policy_allow");
    assert_eq!(shown.destination_host.as_deref(), Some("api.example.com"));
    assert_eq!(shown.destination_ip.as_deref(), Some("1.2.3.4"));
    assert_eq!(shown.destination_port, Some(443));
    assert_eq!(shown.transport, "tcp");
    assert_eq!(shown.protocol.as_deref(), Some("http"));
    assert_eq!(shown.sni.as_deref(), Some("sni.example.com"));
    assert_eq!(
        shown.http_authority.as_deref(),
        Some("authority.example.com")
    );
    assert_eq!(shown.correlation_id.as_deref(), Some("tcp-1"));
    assert_eq!(
        shown.matched_rule.as_deref(),
        Some("rule[0] allow domain:api.example.com")
    );
    assert_eq!(shown.dropped_count, 2);
    assert_eq!(shown.earliest_retained_sequence, 3);
}

#[test]
fn an_unknown_ip_has_no_text() {
    let mut event = event();
    event.destination_ip = None;
    assert_eq!(convert_event(&event).destination_ip, None);
}

#[test]
fn phases_and_actions_have_their_names() {
    assert_eq!(phase_label(DecisionPhase::Dns), "dns");
    assert_eq!(phase_label(DecisionPhase::Tcp), "tcp");
    assert_eq!(phase_label(DecisionPhase::Udp), "udp");
    assert_eq!(phase_label(DecisionPhase::Tls), "tls");
    assert_eq!(phase_label(DecisionPhase::Http), "http");
    assert_eq!(action_label(DecisionAction::Allow), "allow");
    assert_eq!(action_label(DecisionAction::Deny), "deny");
    assert_eq!(action_label(DecisionAction::Error), "error");
}

#[test]
fn iteration_hands_out_events_and_stops_at_the_end() {
    match next_step(Some(Ok(NetworkDecisionItem::Event(event())))) {
        PyStep::Item(shown) => assert_eq!(shown, convert_event(&event())),
        other => panic!("expected an item, got {other:?}"),
    }
    for end in [
        NetworkDecisionEnd::Drained,
        NetworkDecisionEnd::SandboxStopped,
    ] {
        assert!(matches!(
            next_step(Some(Ok(NetworkDecisionItem::End(end)))),
            PyStep::Stop
        ));
    }
    assert!(matches!(next_step(None), PyStep::Stop));
    match next_step(Some(Err(MicrosandboxError::Runtime("gone".into())))) {
        PyStep::Raise(MicrosandboxError::Runtime(message)) => assert_eq!(message, "gone"),
        other => panic!("expected an error, got {other:?}"),
    }
}

#[test]
fn an_ipv6_destination_is_shown_in_canonical_text() {
    let mut event = event();
    event.destination_ip = Some(IpAddr::V6(0x2001_0db8_0000_0000_0000_0000_0000_0001));
    assert_eq!(
        convert_event(&event).destination_ip.as_deref(),
        Some("2001:db8::1")
    );
}
