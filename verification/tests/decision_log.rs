use network_decisions::{
    DecisionAction, DecisionLog, DecisionPhase, DecisionRecord, FollowOutcome,
};

fn record(reason: &str) -> DecisionRecord {
    DecisionRecord {
        phase: DecisionPhase::Tcp,
        action: DecisionAction::Allow,
        reason: reason.into(),
        destination_host: Some("example.com".into()),
        destination_ip: None,
        destination_port: Some(443),
        transport: "tcp".into(),
        protocol: Some("tls".into()),
        sni: None,
        http_authority: None,
        correlation_id: Some("tcp-1".into()),
        matched_rule: Some("rule[0] allow any".into()),
    }
}

#[test]
fn sequences_are_monotonic_and_contiguous() {
    let mut log = DecisionLog::with_capacity(16);
    for i in 1..=5 {
        let event = log.emit(record("policy_allow"));
        assert_eq!(event.sequence, i);
    }
    let snap = log.snapshot_after(0);
    let seqs: Vec<u64> = snap.events.iter().map(|e| e.sequence).collect();
    assert_eq!(seqs, vec![1, 2, 3, 4, 5]);
    assert_eq!(snap.dropped_count, 0);
    assert_eq!(snap.earliest_retained_sequence, 1);
    assert_eq!(snap.next_sequence, 6);
}

#[test]
fn overflow_reports_dropped_count_and_earliest_retained() {
    let mut log = DecisionLog::with_capacity(16);
    for _ in 0..20 {
        log.emit(record("policy_allow"));
    }
    let snap = log.snapshot_after(0);
    assert_eq!(snap.events.len(), 16);
    assert_eq!(snap.dropped_count, 4);
    assert_eq!(snap.earliest_retained_sequence, 5);
    assert_eq!(snap.events[0].sequence, 5);
    assert_eq!(snap.events.last().unwrap().sequence, 20);
    assert_eq!(snap.events.last().unwrap().dropped_count, 4);
}

#[test]
fn snapshot_after_cursor_excludes_seen_events() {
    let mut log = DecisionLog::with_capacity(16);
    for _ in 0..3 {
        log.emit(record("policy_allow"));
    }
    let snap = log.snapshot_after(2);
    assert_eq!(snap.events.len(), 1);
    assert_eq!(snap.events[0].sequence, 3);
}

#[test]
fn follow_unblocks_on_close() {
    let mut log = DecisionLog::with_capacity(16);
    log.close();
    match log.wait_after(0) {
        Some(FollowOutcome::Closed { dropped_count, .. }) => assert_eq!(dropped_count, 0),
        other => panic!("expected closed, got {other:?}"),
    }
}

#[test]
fn follow_receives_live_events_then_close() {
    let mut log = DecisionLog::with_capacity(16);
    assert_eq!(log.wait_after(0), None);
    log.emit(record("policy_allow"));
    match log.wait_after(0) {
        Some(FollowOutcome::Events { events, closed, .. }) => {
            assert_eq!(events.len(), 1);
            assert!(!closed);
        }
        other => panic!("expected events, got {other:?}"),
    }
    log.close();
    match log.wait_after(1) {
        Some(FollowOutcome::Closed { .. }) => {}
        other => panic!("expected closed after drain, got {other:?}"),
    }
}

#[test]
fn stream_cancel_via_close_is_terminal() {
    let mut log = DecisionLog::with_capacity(16);
    assert_eq!(log.wait_after(0), None);
    log.close();
    match log.wait_after(0) {
        Some(FollowOutcome::Closed { .. }) => {}
        other => panic!("expected closed, got {other:?}"),
    }
}

#[test]
fn a_new_log_is_open_and_empty() {
    let log = DecisionLog::new();
    assert_eq!(log.capacity(), 4096);
    assert_eq!(DecisionLog::default().capacity(), 4096);
    assert_eq!(DecisionLog::with_capacity(0).capacity(), 16);
    assert!(!log.is_closed());
    let snap = log.snapshot_after(0);
    assert!(snap.events.is_empty());
    assert_eq!(snap.dropped_count, 0);
    assert_eq!(snap.earliest_retained_sequence, 0);
    assert_eq!(snap.next_sequence, 1);
    assert!(!snap.closed);
}

#[test]
fn the_stored_event_is_the_returned_one() {
    let mut log = DecisionLog::with_capacity(16);
    let event = log.emit_at(record("policy_allow"), "2026-01-01T00:00:00.000Z".into());
    assert_eq!(event.timestamp, "2026-01-01T00:00:00.000Z");
    assert_eq!(event.phase, DecisionPhase::Tcp);
    assert_eq!(event.action, DecisionAction::Allow);
    assert_eq!(event.reason, "policy_allow");
    assert_eq!(event.destination_host.as_deref(), Some("example.com"));
    assert_eq!(event.destination_ip, None);
    assert_eq!(event.destination_port, Some(443));
    assert_eq!(event.transport, "tcp");
    assert_eq!(event.protocol.as_deref(), Some("tls"));
    assert_eq!(event.sni, None);
    assert_eq!(event.http_authority, None);
    assert_eq!(event.correlation_id.as_deref(), Some("tcp-1"));
    assert_eq!(event.matched_rule.as_deref(), Some("rule[0] allow any"));
    assert_eq!(event.dropped_count, 0);
    assert_eq!(event.earliest_retained_sequence, 1);
    let snap = log.snapshot_after(0);
    assert_eq!(snap.events, vec![event.clone()]);
    assert_eq!(snap.clone(), snap);
}

#[test]
fn each_event_carries_the_counters_of_its_time() {
    let mut log = DecisionLog::with_capacity(16);
    for i in 1..=40u64 {
        let event = log.emit(record("policy_allow"));
        let dropped = i.saturating_sub(16);
        assert_eq!(event.sequence, i);
        assert_eq!(event.dropped_count, dropped);
        assert_eq!(event.earliest_retained_sequence, dropped + 1);
        let snap = log.snapshot_after(0);
        assert_eq!(snap.dropped_count, dropped);
        assert_eq!(snap.earliest_retained_sequence, dropped + 1);
        assert_eq!(snap.dropped_count + snap.events.len() as u64, i);
    }
}

#[test]
fn resuming_from_the_last_sequence_repeats_and_misses_nothing() {
    let mut log = DecisionLog::with_capacity(16);
    let mut seen: Vec<u64> = Vec::new();
    for round in 0..6u64 {
        for _ in 0..round * 3 {
            log.emit(record("policy_allow"));
        }
        let after = seen.last().copied().unwrap_or(0);
        seen.extend(log.snapshot_after(after).events.iter().map(|e| e.sequence));
    }
    assert_eq!(seen, (1..=45).collect::<Vec<u64>>());
}

#[test]
fn a_slow_reader_can_count_what_it_missed() {
    let mut log = DecisionLog::with_capacity(16);
    for _ in 0..30 {
        log.emit(record("policy_allow"));
    }
    let snap = log.snapshot_after(10);
    assert_eq!(snap.events[0].sequence, 15);
    assert_eq!(snap.earliest_retained_sequence - 10 - 1, 4);
    assert!(log.snapshot_after(30).events.is_empty());
    assert!(log.snapshot_after(u64::MAX).events.is_empty());
}

#[test]
fn late_decisions_are_recorded_after_closing() {
    let mut log = DecisionLog::with_capacity(16);
    log.close();
    log.close();
    assert!(log.is_closed());
    log.emit(record("policy_deny"));
    assert!(log.is_closed());
    let outcome = log.wait_after(0).unwrap();
    assert_eq!(outcome.clone(), outcome);
    match outcome {
        FollowOutcome::Events {
            events,
            closed,
            dropped_count,
            earliest_retained_sequence,
        } => {
            assert_eq!(events.len(), 1);
            assert_eq!(events[0].reason, "policy_deny");
            assert!(closed);
            assert_eq!(dropped_count, 0);
            assert_eq!(earliest_retained_sequence, 1);
        }
        other => panic!("expected events, got {other:?}"),
    }
    assert_eq!(
        log.wait_after(1),
        Some(FollowOutcome::Closed {
            dropped_count: 0,
            earliest_retained_sequence: 1
        })
    );
    assert!(log.snapshot_after(0).closed);
}

#[test]
fn a_log_can_move_between_threads() {
    fn movable<T: Send + Sync>(_: &T) -> bool {
        true
    }
    assert!(movable(&DecisionLog::new()));
}
