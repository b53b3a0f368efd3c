//! Helpers that record a decision without attaching request bodies or secrets.

use vstd::prelude::*;

use crate::address::SocketAddr;
use crate::log::{DecisionLog, LogView};
use crate::policy::{Action, EgressEvaluation, PolicyDecision, Protocol};
use crate::record::DecisionRecord;
use crate::shared::SharedState;
use crate::text::{self, same_text};
use crate::timestamp;
use crate::types::{DecisionAction, DecisionPhase, EventView, NetworkDecisionEvent, RecordView};

verus! {

/// The stable reason of a policy action.
pub open spec fn reason_text(action: Action, matched_rule: Seq<char>) -> Seq<char> {
    match action {
        Action::Allow => if matched_rule == "default_egress"@ {
            "default_egress_allow"@
        } else if matched_rule == "platform_policy"@ {
            "platform_policy_allow"@
        } else {
            "policy_allow"@
        },
        Action::Deny => if matched_rule == "default_egress"@ {
            "default_egress_deny"@
        } else if matched_rule == "platform_policy"@ {
            "platform_policy_deny"@
        } else {
            "policy_deny"@
        },
    }
}

/// The decision action of a policy action.
pub open spec fn decision_action(action: Action) -> DecisionAction {
    match action {
        Action::Allow => DecisionAction::Allow,
        Action::Deny => DecisionAction::Deny,
    }
}

/// The policy action of an evaluation that is final.
pub open spec fn final_action(evaluation: EgressEvaluation) -> Option<Action> {
    match evaluation {
        EgressEvaluation::Allow => Some(Action::Allow),
        EgressEvaluation::Deny => Some(Action::Deny),
        EgressEvaluation::DeferUntilHostname => None,
        EgressEvaluation::DeferUntilHttp => None,
    }
}

/// The name of a transport.
pub open spec fn transport_text(protocol: Protocol) -> Seq<char> {
    match protocol {
        Protocol::Tcp => "tcp"@,
        Protocol::Udp => "udp"@,
        Protocol::Icmpv4 => "icmp"@,
        Protocol::Icmpv6 => "icmp"@,
    }
}

/// What is recorded of a DNS query.
pub open spec fn dns_record(
    action: Action,
    matched_rule: Seq<char>,
    host: Option<Seq<char>>,
    transport: Protocol,
    port: u16,
    correlation_id: Option<Seq<char>>,
) -> RecordView {
    RecordView {
        phase: DecisionPhase::Dns,
        action: decision_action(action),
        reason: reason_text(action, matched_rule),
        destination_host: host,
        destination_ip: None,
        destination_port: Some(port),
        transport: transport_text(transport),
        protocol: Some("dns"@),
        sni: None,
        http_authority: None,
        correlation_id,
        matched_rule: Some(matched_rule),
    }
}

/// What is recorded of a connection; nothing while its evaluation is deferred.
pub open spec fn connection_view(
    phase: DecisionPhase,
    transport: Seq<char>,
    protocol: Option<Seq<char>>,
    decision: PolicyDecision,
    dst: SocketAddr,
    host: Option<Seq<char>>,
    sni: Option<Seq<char>>,
    http_authority: Option<Seq<char>>,
    correlation_id: Option<Seq<char>>,
) -> Option<RecordView> {
    match final_action(decision.evaluation) {
        Some(action) => Some(
            RecordView {
                phase,
                action: decision_action(action),
                reason: reason_text(action, decision.matched_rule@),
                destination_host: host,
                destination_ip: Some(dst.ip),
                destination_port: Some(dst.port),
                transport,
                protocol,
                sni,
                http_authority,
                correlation_id,
                matched_rule: Some(decision.matched_rule@),
            },
        ),
        None => None,
    }
}

/// What is recorded of an operational error.
pub open spec fn error_view(
    phase: DecisionPhase,
    reason: Seq<char>,
    dst: SocketAddr,
    transport: Seq<char>,
    protocol: Option<Seq<char>>,
    host: Option<Seq<char>>,
    sni: Option<Seq<char>>,
    correlation_id: Option<Seq<char>>,
) -> RecordView {
    RecordView {
        phase,
        action: DecisionAction::Error,
        reason,
        destination_host: host,
        destination_ip: Some(dst.ip),
        destination_port: Some(dst.port),
        transport,
        protocol,
        sni,
        http_authority: None,
        correlation_id,
        matched_rule: None,
    }
}

/// The text that an optional string slice holds.
pub open spec fn optional_str(text: Option<&str>) -> Option<Seq<char>> {
    match text {
        Some(text) => Some(text@),
        None => None,
    }
}

/// Whether `after` is `before` with `record` recorded at a time that the clock showed, and
/// `event` is the event recorded.
pub open spec fn is_recorded(
    before: LogView,
    after: LogView,
    record: RecordView,
    event: EventView,
) -> bool {
    &&& after == before.recorded(record, event.timestamp)
    &&& event == after.history.last()
    &&& timestamp::is_clock_text(event.timestamp)
}

/// Whether a final decision was recorded, and a deferred one left the log as it was.
pub open spec fn is_recorded_if_final(
    before: LogView,
    after: LogView,
    record: Option<RecordView>,
    event: Option<NetworkDecisionEvent>,
) -> bool {
    match record {
        Some(record) => event matches Some(event) && is_recorded(before, after, record, event@),
        None => event is None && after == before,
    }
}

/// An owned copy of an optional string slice.
fn owned(text: Option<&str>) -> (copy: Option<String>)
    ensures
        text::optional_text(copy) == optional_str(text),
{
    match text {
        Some(text) => Some(text.to_string()),
        None => None,
    }
}

/// Record `record` on `shared`'s decision log.
pub fn emit(shared: &mut SharedState, record: DecisionRecord) -> (event: NetworkDecisionEvent)
    requires
        old(shared).decisions.well_formed(),
    ensures
        final(shared).decisions.well_formed(),
        final(shared).queue_capacity == old(shared).queue_capacity,
        is_recorded(old(shared).decisions@, final(shared).decisions@, record@, event@),
{
    shared.decisions.emit(record)
}

/// Map a policy action onto a stable reason string.
pub fn reason_for_action(action: Action, matched_rule: &str) -> (reason: String)
    ensures
        reason@ == reason_text(action, matched_rule@),
{
    let by_default: bool = same_text(matched_rule, "default_egress");
    let by_platform: bool = same_text(matched_rule, "platform_policy");
    match action {
        Action::Allow => if by_default {
            "default_egress_allow".to_string()
        } else if by_platform {
            "platform_policy_allow".to_string()
        } else {
            "policy_allow".to_string()
        },
        Action::Deny => if by_default {
            "default_egress_deny".to_string()
        } else if by_platform {
            "platform_policy_deny".to_string()
        } else {
            "policy_deny".to_string()
        },
    }
}

/// Convert an [`Action`] into a decision action.
pub fn action_from_policy(action: Action) -> (converted: DecisionAction)
    ensures
        converted == decision_action(action),
{
    match action {
        Action::Allow => DecisionAction::Allow,
        Action::Deny => DecisionAction::Deny,
    }
}

/// Emit a DNS query decision.
pub fn emit_dns(
    log: &mut DecisionLog,
    action: Action,
    matched_rule: String,
    host: Option<String>,
    transport: Protocol,
    port: u16,
    correlation_id: Option<String>,
) -> (event: NetworkDecisionEvent)
    requires
        old(log).well_formed(),
    ensures
        final(log).well_formed(),
        is_recorded(
            old(log)@,
            final(log)@,
            dns_record(
                action,
                matched_rule@,
                text::optional_text(host),
                transport,
                port,
                text::optional_text(correlation_id),
            ),
            event@,
        ),
{
    log.emit(
        DecisionRecord {
            phase: DecisionPhase::Dns,
            action: action_from_policy(action),
            reason: reason_for_action(action, matched_rule.as_str()),
            destination_host: host,
            destination_ip: None,
            destination_port: Some(port),
            transport: transport_label(transport),
            protocol: Some("dns".to_string()),
            sni: None,
            http_authority: None,
            correlation_id,
            matched_rule: Some(matched_rule),
        },
    )
}

/// Emit a TCP connection-policy decision when evaluation is final.
pub fn emit_tcp(
    shared: &mut SharedState,
    decision: &PolicyDecision,
    dst: SocketAddr,
    host: Option<String>,
    correlation_id: Option<String>,
) -> (event: Option<NetworkDecisionEvent>)
    requires
        old(shared).decisions.well_formed(),
    ensures
        final(shared).decisions.well_formed(),
        final(shared).queue_capacity == old(shared).queue_capacity,
        is_recorded_if_final(
            old(shared).decisions@,
            final(shared).decisions@,
            connection_view(
                DecisionPhase::Tcp,
                "tcp"@,
                None,
                *decision,
                dst,
                text::optional_text(host),
                None,
                None,
                text::optional_text(correlation_id),
            ),
            event,
        ),
{
    emit_connection(
        shared,
        DecisionPhase::Tcp,
        "tcp",
        None,
        decision,
        dst,
        host,
        None,
        None,
        correlation_id,
    )
}

/// Emit a UDP datagram-policy decision when evaluation is final.
pub fn emit_udp(
    shared: &mut SharedState,
    decision: &PolicyDecision,
    dst: SocketAddr,
    host: Option<String>,
    correlation_id: Option<String>,
) -> (event: Option<NetworkDecisionEvent>)
    requires
        old(shared).decisions.well_formed(),
    ensures
        final(shared).decisions.well_formed(),
        final(shared).queue_capacity == old(shared).queue_capacity,
        is_recorded_if_final(
            old(shared).decisions@,
            final(shared).decisions@,
            connection_view(
                DecisionPhase::Udp,
                "udp"@,
                None,
                *decision,
                dst,
                text::optional_text(host),
                None,
                None,
                text::optional_text(correlation_id),
            ),
            event,
        ),
{
    emit_connection(
        shared,
        DecisionPhase::Udp,
        "udp",
        None,
        decision,
        dst,
        host,
        None,
        None,
        correlation_id,
    )
}

/// What is recorded of a TLS handshake; nothing while its evaluation is deferred.
pub open spec fn tls_view(
    decision: PolicyDecision,
    dst: SocketAddr,
    sni: Seq<char>,
    correlation_id: Option<Seq<char>>,
) -> Option<RecordView> {
    connection_view(
        DecisionPhase::Tls,
        "tcp"@,
        Some("tls"@),
        decision,
        dst,
        Some(sni),
        Some(sni),
        None,
        correlation_id,
    )
}

/// An event with another reason in place of its own, where one is given.
pub open spec fn with_reason(event: EventView, reason: Option<Seq<char>>) -> EventView {
    match reason {
        Some(reason) => EventView { record: RecordView { reason, ..event.record }, ..event },
        None => event,
    }
}

/// Emit a TLS/SNI inspection decision when evaluation is final.
///
/// The log keeps the reason of the policy. The event that is returned carries
/// `reason_override` in its place, where one is given.
pub fn emit_tls(
    shared: &mut SharedState,
    decision: &PolicyDecision,
    dst: SocketAddr,
    sni: &str,
    correlation_id: Option<String>,
    reason_override: Option<&str>,
) -> (event: Option<NetworkDecisionEvent>)
    requires
        old(shared).decisions.well_formed(),
    ensures
        final(shared).decisions.well_formed(),
        final(shared).queue_capacity == old(shared).queue_capacity,
        match tls_view(*decision, dst, sni@, text::optional_text(correlation_id)) {
            Some(record) => {
                let stored = final(shared).decisions@.history.last();
                &&& is_recorded(
                    old(shared).decisions@,
                    final(shared).decisions@,
                    record,
                    stored,
                )
                &&& event matches Some(event) && event@ == with_reason(
                    stored,
                    optional_str(reason_override),
                )
            },
            None => event is None && final(shared).decisions@ == old(shared).decisions@,
        },
{
    let event: Option<NetworkDecisionEvent> = emit_connection(
        shared,
        DecisionPhase::Tls,
        "tcp",
        Some("tls"),
        decision,
        dst,
        Some(sni.to_string()),
        Some(sni.to_string()),
        None,
        correlation_id,
    );
    match event {
        Some(mut event) => {
            if let Some(reason) = reason_override {
                event.reason = reason.to_string();
            }
            Some(event)
        },
        None => None,
    }
}

/// The first of two texts that is there.
pub open spec fn first_of(
    first: Option<Seq<char>>,
    second: Option<Seq<char>>,
) -> Option<Seq<char>> {
    match first {
        Some(text) => Some(text),
        None => second,
    }
}

/// Emit an HTTP request-policy decision when evaluation is final.
pub fn emit_http(
    shared: &mut SharedState,
    decision: &PolicyDecision,
    dst: SocketAddr,
    authority: Option<String>,
    sni: Option<String>,
    correlation_id: Option<String>,
) -> (event: Option<NetworkDecisionEvent>)
    requires
        old(shared).decisions.well_formed(),
    ensures
        final(shared).decisions.well_formed(),
        final(shared).queue_capacity == old(shared).queue_capacity,
        is_recorded_if_final(
            old(shared).decisions@,
            final(shared).decisions@,
            connection_view(
                DecisionPhase::Http,
                "tcp"@,
                Some("http"@),
                *decision,
                dst,
                first_of(text::optional_text(authority), text::optional_text(sni)),
                text::optional_text(sni),
                text::optional_text(authority),
                text::optional_text(correlation_id),
            ),
            event,
        ),
{
    let host: Option<String> = match &authority {
        Some(authority) => Some(authority.clone()),
        None => sni.clone(),
    };
    emit_connection(
        shared,
        DecisionPhase::Http,
        "tcp",
        Some("http"),
        decision,
        dst,
        host,
        sni,
        authority,
        correlation_id,
    )
}

/// The record of a connection decision; nothing while its evaluation is deferred.
pub fn connection_record(
    phase: DecisionPhase,
    transport: &str,
    protocol: Option<&str>,
    decision: &PolicyDecision,
    dst: SocketAddr,
    host: Option<String>,
    sni: Option<String>,
    http_authority: Option<String>,
    correlation_id: Option<String>,
) -> (record: Option<DecisionRecord>)
    ensures
        connection_view(
            phase,
            transport@,
            optional_str(protocol),
            *decision,
            dst,
            text::optional_text(host),
            text::optional_text(sni),
            text::optional_text(http_authority),
            text::optional_text(correlation_id),
        ) == match record {
            Some(record) => Some(record@),
            None => None,
        },
{
    let policy_action: Action = match decision.evaluation {
        EgressEvaluation::Allow => Action::Allow,
        EgressEvaluation::Deny => Action::Deny,
        EgressEvaluation::DeferUntilHostname | EgressEvaluation::DeferUntilHttp => {
            return None;
        },
    };
    Some(
        DecisionRecord {
            phase,
            action: action_from_policy(policy_action),
            reason: reason_for_action(policy_action, decision.matched_rule.as_str()),
            destination_host: host,
            destination_ip: Some(dst.ip),
            destination_port: Some(dst.port),
            transport: transport.to_string(),
            protocol: owned(protocol),
            sni,
            http_authority,
            correlation_id,
            matched_rule: Some(decision.matched_rule.clone()),
        },
    )
}

/// Record a connection decision when evaluation is final.
fn emit_connection(
    shared: &mut SharedState,
    phase: DecisionPhase,
    transport: &str,
    protocol: Option<&str>,
    decision: &PolicyDecision,
    dst: SocketAddr,
    host: Option<String>,
    sni: Option<String>,
    http_authority: Option<String>,
    correlation_id: Option<String>,
) -> (event: Option<NetworkDecisionEvent>)
    requires
        old(shared).decisions.well_formed(),
    ensures
        final(shared).decisions.well_formed(),
        final(shared).queue_capacity == old(shared).queue_capacity,
        is_recorded_if_final(
            old(shared).decisions@,
            final(shared).decisions@,
            connection_view(
                phase,
                transport@,
                optional_str(protocol),
                *decision,
                dst,
                text::optional_text(host),
                text::optional_text(sni),
                text::optional_text(http_authority),
                text::optional_text(correlation_id),
            ),
            event,
        ),
{
    let record: Option<DecisionRecord> = connection_record(
        phase,
        transport,
        protocol,
        decision,
        dst,
        host,
        sni,
        http_authority,
        correlation_id,
    );
    match record {
        Some(record) => Some(emit(shared, record)),
        None => None,
    }
}

/// Emit an operational error at an enforcement point.
pub fn emit_error(
    shared: &mut SharedState,
    phase: DecisionPhase,
    reason: &str,
    dst: SocketAddr,
    transport: &str,
    protocol: Option<&str>,
    host: Option<String>,
    sni: Option<String>,
    correlation_id: Option<String>,
) -> (event: NetworkDecisionEvent)
    requires
        old(shared).decisions.well_formed(),
    ensures
        final(shared).decisions.well_formed(),
        final(shared).queue_capacity == old(shared).queue_capacity,
        is_recorded(
            old(shared).decisions@,
            final(shared).decisions@,
            error_view(
                phase,
                reason@,
                dst,
                transport@,
                optional_str(protocol),
                text::optional_text(host),
                text::optional_text(sni),
                text::optional_text(correlation_id),
            ),
            event@,
        ),
{
    emit(
        shared,
        DecisionRecord {
            phase,
            action: DecisionAction::Error,
            reason: reason.to_string(),
            destination_host: host,
            destination_ip: Some(dst.ip),
            destination_port: Some(dst.port),
            transport: transport.to_string(),
            protocol: owned(protocol),
            sni,
            http_authority: None,
            correlation_id,
            matched_rule: None,
        },
    )
}

/// The name of a transport.
pub fn transport_label(protocol: Protocol) -> (label: String)
    ensures
        label@ == transport_text(protocol),
{
    match protocol {
        Protocol::Tcp => "tcp".to_string(),
        Protocol::Udp => "udp".to_string(),
        Protocol::Icmpv4 | Protocol::Icmpv6 => "icmp".to_string(),
    }
}

/// A reason tells which action was taken, whatever rule matched.
pub proof fn law_reason_tells_the_action(left: Seq<char>, right: Seq<char>)
    ensures
        reason_text(Action::Allow, left) != reason_text(Action::Deny, right),
{
    reveal_strlit("default_egress_allow");
    reveal_strlit("platform_policy_allow");
    reveal_strlit("policy_allow");
    reveal_strlit("default_egress_deny");
    reveal_strlit("platform_policy_deny");
    reveal_strlit("policy_deny");
    assert(reason_text(Action::Allow, left).last() == 'w');
    assert(reason_text(Action::Deny, right).last() == 'y');
}

} // verus!
