use network_decisions::emit::{connection_record, transport_label};
use network_decisions::{
    action_from_policy, emit, emit_dns, emit_error, emit_http, emit_tcp, emit_tls, emit_udp,
    reason_for_action, Action, DecisionAction, DecisionLog, DecisionPhase, EgressEvaluation,
    IpAddr, PolicyDecision, Protocol, SharedState, SocketAddr,
};

fn dst() -> SocketAddr {
    SocketAddr {
        ip: IpAddr::v4(1, 2, 3, 4),
        port: 443,
    }
}

fn decision(evaluation: EgressEvaluation, matched_rule: &str) -> PolicyDecision {
    PolicyDecision {
        evaluation,
        matched_rule: matched_rule.into(),
    }
}

#[test]
fn deferred_evaluations_are_not_emitted() {
    let mut shared = SharedState::new(8);
    let decision = PolicyDecision {
        evaluation: EgressEvaluation::DeferUntilHostname,
        matched_rule: "rule[0] allow domain:example.com".into(),
    };
    let dst = dst();
    assert!(emit_tcp(&mut shared, &decision, dst, None, None).is_none());
    assert!(shared.decisions().snapshot_after(0).events.is_empty());
}

#[test]
fn dns_allow_and_deny_record_stable_reasons() {
    let mut log = DecisionLog::with_capacity(16);
    let allow = emit_dns(
        &mut log,
        Action::Allow,
        "rule[0] allow group:host".into(),
        Some("example.com".into()),
        Protocol::Udp,
        53,
        Some("dns-1".into()),
    );
    assert_eq!(allow.phase, DecisionPhase::Dns);
    assert_eq!(allow.reason, "policy_allow");
    assert_eq!(allow.correlation_id.as_deref(), Some("dns-1"));
    let deny = emit_dns(
        &mut log,
        Action::Deny,
        "default_egress".into(),
        Some("evil.com".into()),
        Protocol::Udp,
        53,
        Some("dns-2".into()),
    );
    assert_eq!(deny.reason, "default_egress_deny");
    assert_eq!(deny.action, DecisionAction::Deny);
}

#[test]
fn allowed_and_denied_dns_tcp_tls_http_are_ordered() {
    let mut shared = SharedState::with_decision_capacity(8, 32);
    let rule = "rule[0] allow domain:example.com";
    emit_dns(
        &mut shared.decisions,
        Action::Allow,
        rule.into(),
        Some("example.com".into()),
        Protocol::Udp,
        53,
        Some("dns-1".into()),
    );
    let tcp = decision(EgressEvaluation::Allow, rule);
    emit_tcp(&mut shared, &tcp, dst(), None, Some("tcp-1".into()));
    let tls = decision(EgressEvaluation::Allow, rule);
    emit_tls(
        &mut shared,
        &tls,
        dst(),
        "example.com",
        Some("tcp-1".into()),
        None,
    );
    let http_ok = decision(EgressEvaluation::Allow, rule);
    let http_deny_method = decision(EgressEvaluation::Deny, "default_egress");
    let http_deny_path = decision(EgressEvaluation::Deny, "default_egress");
    for http in [&http_ok, &http_deny_method, &http_deny_path] {
        emit_http(
            &mut shared,
            http,
            dst(),
            Some("example.com".into()),
            Some("example.com".into()),
            Some("tcp-1".into()),
        );
    }

    let events = shared.decisions().snapshot_after(0).events;
    let phases: Vec<_> = events.iter().map(|e| e.phase).collect();
    assert_eq!(
        phases,
        vec![
            DecisionPhase::Dns,
            DecisionPhase::Tcp,
            DecisionPhase::Tls,
            DecisionPhase::Http,
            DecisionPhase::Http,
            DecisionPhase::Http,
        ]
    );
    let seqs: Vec<_> = events.iter().map(|e| e.sequence).collect();
    assert_eq!(seqs, vec![1, 2, 3, 4, 5, 6]);
    assert_eq!(events[0].action, DecisionAction::Allow);
    assert_eq!(events[1].action, DecisionAction::Allow);
    assert_eq!(events[2].action, DecisionAction::Allow);
    assert_eq!(events[3].action, DecisionAction::Allow);
    assert_eq!(events[4].action, DecisionAction::Deny);
    assert_eq!(events[5].action, DecisionAction::Deny);
    assert_eq!(events[2].sni.as_deref(), Some("example.com"));
    assert_eq!(events[3].correlation_id.as_deref(), Some("tcp-1"));
    assert_eq!(events[4].correlation_id.as_deref(), Some("tcp-1"));
    assert!(events[3]
        .matched_rule
        .as_deref()
        .unwrap()
        .contains("rule[0]"));
    assert_eq!(events[3].http_authority.as_deref(), Some("example.com"));
}

#[test]
fn denied_dns_and_tcp_use_policy_deny() {
    let mut shared = SharedState::new(8);
    emit_dns(
        &mut shared.decisions,
        Action::Deny,
        "default_egress".into(),
        Some("evil.com".into()),
        Protocol::Udp,
        53,
        Some("dns-9".into()),
    );
    let tcp = decision(EgressEvaluation::Deny, "default_egress");
    emit_tcp(&mut shared, &tcp, dst(), None, Some("tcp-9".into()));
    let events = shared.decisions().snapshot_after(0).events;
    assert_eq!(events.len(), 2);
    assert_eq!(events[0].phase, DecisionPhase::Dns);
    assert_eq!(events[0].action, DecisionAction::Deny);
    assert_eq!(events[0].reason, "default_egress_deny");
    assert_eq!(events[1].phase, DecisionPhase::Tcp);
    assert_eq!(events[1].action, DecisionAction::Deny);
}

#[test]
fn every_reason_has_its_exact_text() {
    let reasons = [
        (Action::Allow, "default_egress", "default_egress_allow"),
        (Action::Deny, "default_egress", "default_egress_deny"),
        (Action::Allow, "platform_policy", "platform_policy_allow"),
        (Action::Deny, "platform_policy", "platform_policy_deny"),
        (Action::Allow, "rule[3]", "policy_allow"),
        (Action::Deny, "", "policy_deny"),
        (Action::Deny, "default_egress ", "policy_deny"),
    ];
    for (action, rule, reason) in reasons {
        assert_eq!(reason_for_action(action, rule), reason);
        assert_eq!(
            reason.ends_with("allow"),
            action_from_policy(action) == DecisionAction::Allow
        );
    }
}

#[test]
fn transports_have_their_names() {
    assert_eq!(transport_label(Protocol::Tcp), "tcp");
    assert_eq!(transport_label(Protocol::Udp), "udp");
    assert_eq!(transport_label(Protocol::Icmpv4), "icmp");
    assert_eq!(transport_label(Protocol::Icmpv6), "icmp");
}

#[test]
fn a_udp_decision_holds_its_destination() {
    let mut shared = SharedState::new(8);
    assert_eq!(shared.queue_capacity, 8);
    let event = emit_udp(
        &mut shared,
        &decision(EgressEvaluation::Deny, "platform_policy"),
        SocketAddr {
            ip: IpAddr::V6(1),
            port: 53,
        },
        Some("dns.example".into()),
        None,
    )
    .unwrap();
    assert_eq!(event.phase, DecisionPhase::Udp);
    assert_eq!(event.transport, "udp");
    assert_eq!(event.reason, "platform_policy_deny");
    assert_eq!(event.protocol, None);
    assert_eq!(event.destination_host.as_deref(), Some("dns.example"));
    assert_eq!(event.destination_ip, Some(IpAddr::V6(1)));
    assert_eq!(event.destination_port, Some(53));
    assert_eq!(event.correlation_id, None);
    assert_eq!(event.matched_rule.as_deref(), Some("platform_policy"));
}

#[test]
fn a_tls_reason_override_stays_out_of_the_log() {
    let mut shared = SharedState::new(8);
    let returned = emit_tls(
        &mut shared,
        &decision(EgressEvaluation::Deny, "rule[1]"),
        dst(),
        "example.com",
        None,
        Some("sni_mismatch"),
    )
    .unwrap();
    assert_eq!(returned.reason, "sni_mismatch");
    assert_eq!(returned.transport, "tcp");
    assert_eq!(returned.protocol.as_deref(), Some("tls"));
    assert_eq!(returned.destination_host.as_deref(), Some("example.com"));
    let stored = &shared.decisions().snapshot_after(0).events[0];
    assert_eq!(stored.reason, "policy_deny");
    assert_eq!(stored.sequence, returned.sequence);
    assert_eq!(stored.timestamp, returned.timestamp);
}

#[test]
fn an_http_host_is_the_authority_or_else_the_sni() {
    let mut shared = SharedState::new(8);
    let allow = decision(EgressEvaluation::Allow, "rule[0]");
    let cases = [
        (Some("a.example"), Some("s.example"), Some("a.example")),
        (None, Some("s.example"), Some("s.example")),
        (Some("a.example"), None, Some("a.example")),
        (None, None, None),
    ];
    for (authority, sni, host) in cases {
        let event = emit_http(
            &mut shared,
            &allow,
            dst(),
            authority.map(String::from),
            sni.map(String::from),
            None,
        )
        .unwrap();
        assert_eq!(event.destination_host.as_deref(), host);
        assert_eq!(event.http_authority.as_deref(), authority);
        assert_eq!(event.sni.as_deref(), sni);
        assert_eq!(event.protocol.as_deref(), Some("http"));
    }
}

#[test]
fn http_waits_for_its_evaluation_too() {
    let mut shared = SharedState::new(8);
    let deferred = decision(EgressEvaluation::DeferUntilHttp, "rule[0]");
    assert!(emit_http(&mut shared, &deferred, dst(), None, None, None).is_none());
    assert!(emit_tls(&mut shared, &deferred, dst(), "x", None, Some("y")).is_none());
    assert!(emit_udp(&mut shared, &deferred, dst(), None, None).is_none());
    assert_eq!(shared.decisions().snapshot_after(0).next_sequence, 1);
}

#[test]
fn an_operational_error_is_recorded_as_one() {
    let mut shared = SharedState::new(8);
    let event = emit_error(
        &mut shared,
        DecisionPhase::Tls,
        "handshake_timeout",
        dst(),
        "tcp",
        Some("tls"),
        None,
        Some("example.com".into()),
        Some("tcp-3".into()),
    );
    assert_eq!(event.phase, DecisionPhase::Tls);
    assert_eq!(event.action, DecisionAction::Error);
    assert_eq!(event.reason, "handshake_timeout");
    assert_eq!(event.matched_rule, None);
    assert_eq!(event.http_authority, None);
    assert_eq!(event.destination_ip, Some(IpAddr::v4(1, 2, 3, 4)));
    assert_eq!(event.sni.as_deref(), Some("example.com"));
}

#[test]
fn a_record_can_be_built_and_emitted_in_two_steps() {
    let mut shared = SharedState::new(8);
    let record = connection_record(
        DecisionPhase::Tcp,
        "tcp",
        None,
        &decision(EgressEvaluation::Allow, "default_egress"),
        dst(),
        None,
        None,
        None,
        None,
    )
    .unwrap();
    assert_eq!(record.reason, "default_egress_allow");
    let first = emit(&mut shared, record.clone());
    let second = emit(&mut shared, record);
    assert_eq!((first.sequence, second.sequence), (1, 2));
    assert_eq!(first.reason, second.reason);
}
