//! What the events of each enforcement point say of the decision.

use vstd::prelude::*;

use crate::address::{IpAddr, SocketAddr};
use crate::emit::{
    self, action_from_policy, connection_record, emit, emit_dns, emit_error, emit_http, emit_tcp,
    emit_tls, emit_udp, reason_for_action, transport_label,
};
use crate::log::DecisionLog;
use crate::policy::{Action, EgressEvaluation, PolicyDecision, Protocol};
use crate::python::action_label;
use crate::record::DecisionRecord;
use crate::shared::SharedState;
use crate::text;
use crate::timestamp;
use crate::types::{DecisionAction, DecisionPhase, NetworkDecisionEvent};

verus! {

/// The reason of a decision is the name of what decided, then the action: the default and the
/// platform policy are named as they are, and any rule is named `policy`.
pub proof fn law_reason_names_what_decided(action: Action, matched_rule: &str, reason: String)
    requires
        call_ensures(reason_for_action, (action, matched_rule), reason),
    ensures
        reason@ == (if matched_rule@ == "default_egress"@ || matched_rule@ == "platform_policy"@ {
            matched_rule@
        } else {
            "policy"@
        }) + (match action {
            Action::Allow => "_allow"@,
            Action::Deny => "_deny"@,
        }),
        reason@ == emit::reason_text(action, matched_rule@),
{
    reveal_strlit("default_egress");
    reveal_strlit("platform_policy");
    reveal_strlit("policy");
    reveal_strlit("_allow");
    reveal_strlit("_deny");
    reveal_strlit("default_egress_allow");
    reveal_strlit("default_egress_deny");
    reveal_strlit("platform_policy_allow");
    reveal_strlit("platform_policy_deny");
    reveal_strlit("policy_allow");
    reveal_strlit("policy_deny");
    let named = if matched_rule@ == "default_egress"@ || matched_rule@ == "platform_policy"@ {
        matched_rule@
    } else {
        "policy"@
    };
    let ending = match action {
        Action::Allow => "_allow"@,
        Action::Deny => "_deny"@,
    };
    assert(reason@ =~= named + ending);
}

/// What the policy permits is recorded as allowed and what it refuses as denied, under the
/// name with which the reason ends.
pub proof fn law_action_is_that_of_the_policy(
    action: Action,
    matched_rule: &str,
    converted: DecisionAction,
    label: String,
    reason: String,
)
    requires
        call_ensures(action_from_policy, (action,), converted),
        call_ensures(action_label, (converted,), label),
        call_ensures(reason_for_action, (action, matched_rule), reason),
    ensures
        converted == DecisionAction::Allow <==> action == Action::Allow,
        converted == DecisionAction::Deny <==> action == Action::Deny,
        converted == emit::decision_action(action),
        label@.is_suffix_of(reason@),
{
    law_reason_names_what_decided(action, matched_rule, reason);
    reveal_strlit("allow");
    reveal_strlit("deny");
    reveal_strlit("_allow");
    reveal_strlit("_deny");
}

/// TCP and UDP have their own names, and ICMP has one name over both versions of IP.
pub proof fn law_transports_are_named(protocol: Protocol, label: String)
    requires
        call_ensures(transport_label, (protocol,), label),
    ensures
        label@ == "tcp"@ <==> protocol == Protocol::Tcp,
        label@ == "udp"@ <==> protocol == Protocol::Udp,
        label@ == "icmp"@ <==> protocol == Protocol::Icmpv4 || protocol == Protocol::Icmpv6,
{
    reveal_strlit("tcp");
    reveal_strlit("udp");
    reveal_strlit("icmp");
    assert("tcp"@[0] != "udp"@[0]);
    assert("tcp"@[0] != "icmp"@[0]);
    assert("udp"@[0] != "icmp"@[0]);
}

/// Every DNS decision is recorded, and its event carries the query name, port, correlation
/// identifier and rule that the call gave, under the transport's name and the protocol `dns`.
pub proof fn law_dns_event_says_what_was_asked(
    log: &mut DecisionLog,
    action: Action,
    matched_rule: String,
    host: Option<String>,
    transport: Protocol,
    port: u16,
    correlation_id: Option<String>,
    event: NetworkDecisionEvent,
)
    requires
        old(log).well_formed(),
        call_ensures(
            emit_dns,
            (log, action, matched_rule, host, transport, port, correlation_id),
            event,
        ),
    ensures
        final(log).well_formed(),
        final(log)@.history == old(log)@.history.push(event@),
        final(log)@.capacity == old(log)@.capacity,
        final(log)@.closed == old(log)@.closed,
        timestamp::is_clock_text(event.timestamp@),
        event.phase == DecisionPhase::Dns,
        event.action == DecisionAction::Allow <==> action == Action::Allow,
        event.action == DecisionAction::Deny <==> action == Action::Deny,
        event.reason@ == emit::reason_text(action, matched_rule@),
        text::optional_text(event.destination_host) == text::optional_text(host),
        event.destination_ip == None::<IpAddr>,
        event.destination_port == Some(port),
        event.transport@ == (match transport {
            Protocol::Tcp => "tcp"@,
            Protocol::Udp => "udp"@,
            _ => "icmp"@,
        }),
        text::optional_text(event.protocol) == Some("dns"@),
        text::optional_text(event.sni) == None::<Seq<char>>,
        text::optional_text(event.http_authority) == None::<Seq<char>>,
        text::optional_text(event.correlation_id) == text::optional_text(correlation_id),
        text::optional_text(event.matched_rule) == Some(matched_rule@),
{
}

/// A TCP decision is recorded exactly where it is final, and its event carries the
/// destination, host, correlation identifier and rule that the call gave.
pub proof fn law_tcp_event_says_what_was_decided(
    shared: &mut SharedState,
    decision: &PolicyDecision,
    dst: SocketAddr,
    host: Option<String>,
    correlation_id: Option<String>,
    event: Option<NetworkDecisionEvent>,
)
    requires
        old(shared).decisions.well_formed(),
        call_ensures(emit_tcp, (shared, decision, dst, host, correlation_id), event),
    ensures
        final(shared).decisions.well_formed(),
        final(shared).queue_capacity == old(shared).queue_capacity,
        final(shared).decisions@.capacity == old(shared).decisions@.capacity,
        final(shared).decisions@.closed == old(shared).decisions@.closed,
        event is Some <==> decision.evaluation == EgressEvaluation::Allow || decision.evaluation
            == EgressEvaluation::Deny,
        event is None ==> final(shared).decisions@ == old(shared).decisions@,
        event matches Some(event) ==> {
            &&& final(shared).decisions@.history == old(shared).decisions@.history.push(event@)
            &&& timestamp::is_clock_text(event.timestamp@)
            &&& event.phase == DecisionPhase::Tcp
            &&& (event.action == DecisionAction::Allow <==> decision.evaluation
                == EgressEvaluation::Allow)
            &&& (event.action == DecisionAction::Deny <==> decision.evaluation
                == EgressEvaluation::Deny)
            &&& event.reason@ == emit::reason_text(
                if decision.evaluation == EgressEvaluation::Allow {
                    Action::Allow
                } else {
                    Action::Deny
                },
                decision.matched_rule@,
            )
            &&& text::optional_text(event.destination_host) == text::optional_text(host)
            &&& event.destination_ip == Some(dst.ip)
            &&& event.destination_port == Some(dst.port)
            &&& event.transport@ == "tcp"@
            &&& text::optional_text(event.protocol) == None::<Seq<char>>
            &&& text::optional_text(event.sni) == None::<Seq<char>>
            &&& text::optional_text(event.http_authority) == None::<Seq<char>>
            &&& text::optional_text(event.correlation_id) == text::optional_text(correlation_id)
            &&& text::optional_text(event.matched_rule) == Some(decision.matched_rule@)
        },
{
}

/// A UDP decision is recorded exactly where it is final, and its event carries the
/// destination, host, correlation identifier and rule that the call gave.
pub proof fn law_udp_event_says_what_was_decided(
    shared: &mut SharedState,
    decision: &PolicyDecision,
    dst: SocketAddr,
    host: Option<String>,
    correlation_id: Option<String>,
    event: Option<NetworkDecisionEvent>,
)
    requires
        old(shared).decisions.well_formed(),
        call_ensures(emit_udp, (shared, decision, dst, host, correlation_id), event),
    ensures
        final(shared).decisions.well_formed(),
        final(shared).queue_capacity == old(shared).queue_capacity,
        final(shared).decisions@.capacity == old(shared).decisions@.capacity,
        final(shared).decisions@.closed == old(shared).decisions@.closed,
        event is Some <==> decision.evaluation == EgressEvaluation::Allow || decision.evaluation
            == EgressEvaluation::Deny,
        event is None ==> final(shared).decisions@ == old(shared).decisions@,
        event matches Some(event) ==> {
            &&& final(shared).decisions@.history == old(shared).decisions@.history.push(event@)
            &&& timestamp::is_clock_text(event.timestamp@)
            &&& event.phase == DecisionPhase::Udp
            &&& (event.action == DecisionAction::Allow <==> decision.evaluation
                == EgressEvaluation::Allow)
            &&& (event.action == DecisionAction::Deny <==> decision.evaluation
                == EgressEvaluation::Deny)
            &&& event.reason@ == emit::reason_text(
                if decision.evaluation == EgressEvaluation::Allow {
                    Action::Allow
                } else {
                    Action::Deny
                },
                decision.matched_rule@,
            )
            &&& text::optional_text(event.destination_host) == text::optional_text(host)
            &&& event.destination_ip == Some(dst.ip)
            &&& event.destination_port == Some(dst.port)
            &&& event.transport@ == "udp"@
            &&& text::optional_text(event.protocol) == None::<Seq<char>>
            &&& text::optional_text(event.sni) == None::<Seq<char>>
            &&& text::optional_text(event.http_authority) == None::<Seq<char>>
            &&& text::optional_text(event.correlation_id) == text::optional_text(correlation_id)
            &&& text::optional_text(event.matched_rule) == Some(decision.matched_rule@)
        },
{
}

/// An HTTP decision is recorded exactly where it is final, and its event carries the
/// destination, authority, SNI, correlation identifier and rule that the call gave. The host is
/// the authority, or the SNI where there is none.
pub proof fn law_http_event_says_what_was_decided(
    shared: &mut SharedState,
    decision: &PolicyDecision,
    dst: SocketAddr,
    authority: Option<String>,
    sni: Option<String>,
    correlation_id: Option<String>,
    event: Option<NetworkDecisionEvent>,
)
    requires
        old(shared).decisions.well_formed(),
        call_ensures(emit_http, (shared, decision, dst, authority, sni, correlation_id), event),
    ensures
        final(shared).decisions.well_formed(),
        final(shared).queue_capacity == old(shared).queue_capacity,
        final(shared).decisions@.capacity == old(shared).decisions@.capacity,
        final(shared).decisions@.closed == old(shared).decisions@.closed,
        event is Some <==> decision.evaluation == EgressEvaluation::Allow || decision.evaluation
            == EgressEvaluation::Deny,
        event is None ==> final(shared).decisions@ == old(shared).decisions@,
        event matches Some(event) ==> {
            &&& final(shared).decisions@.history == old(shared).decisions@.history.push(event@)
            &&& timestamp::is_clock_text(event.timestamp@)
            &&& event.phase == DecisionPhase::Http
            &&& (event.action == DecisionAction::Allow <==> decision.evaluation
                == EgressEvaluation::Allow)
            &&& (event.action == DecisionAction::Deny <==> decision.evaluation
                == EgressEvaluation::Deny)
            &&& event.reason@ == emit::reason_text(
                if decision.evaluation == EgressEvaluation::Allow {
                    Action::Allow
                } else {
                    Action::Deny
                },
                decision.matched_rule@,
            )
            &&& text::optional_text(event.destination_host) == if authority is Some {
                text::optional_text(authority)
            } else {
                text::optional_text(sni)
            }
            &&& event.destination_ip == Some(dst.ip)
            &&& event.destination_port == Some(dst.port)
            &&& event.transport@ == "tcp"@
            &&& text::optional_text(event.protocol) == Some("http"@)
            &&& text::optional_text(event.sni) == text::optional_text(sni)
            &&& text::optional_text(event.http_authority) == text::optional_text(authority)
            &&& text::optional_text(event.correlation_id) == text::optional_text(correlation_id)
            &&& text::optional_text(event.matched_rule) == Some(decision.matched_rule@)
        },
{
}

/// A TLS decision is recorded exactly where it is final, and the event that the log keeps
/// carries the destination, correlation identifier and rule that the call gave, and the given
/// SNI as its SNI and as its host.
pub proof fn law_tls_event_says_what_was_decided(
    shared: &mut SharedState,
    decision: &PolicyDecision,
    dst: SocketAddr,
    sni: &str,
    correlation_id: Option<String>,
    reason_override: Option<&str>,
    event: Option<NetworkDecisionEvent>,
)
    requires
        old(shared).decisions.well_formed(),
        call_ensures(
            emit_tls,
            (shared, decision, dst, sni, correlation_id, reason_override),
            event,
        ),
    ensures
        final(shared).decisions.well_formed(),
        final(shared).queue_capacity == old(shared).queue_capacity,
        final(shared).decisions@.capacity == old(shared).decisions@.capacity,
        final(shared).decisions@.closed == old(shared).decisions@.closed,
        event is Some <==> decision.evaluation == EgressEvaluation::Allow || decision.evaluation
            == EgressEvaluation::Deny,
        event is None ==> final(shared).decisions@ == old(shared).decisions@,
        event is Some ==> {
            let stored = final(shared).decisions@.history.last();
            &&& final(shared).decisions@.history == old(shared).decisions@.history.push(stored)
            &&& timestamp::is_clock_text(stored.timestamp)
            &&& stored.record.phase == DecisionPhase::Tls
            &&& (stored.record.action == DecisionAction::Allow <==> decision.evaluation
                == EgressEvaluation::Allow)
            &&& (stored.record.action == DecisionAction::Deny <==> decision.evaluation
                == EgressEvaluation::Deny)
            &&& stored.record.reason == emit::reason_text(
                if decision.evaluation == EgressEvaluation::Allow {
                    Action::Allow
                } else {
                    Action::Deny
                },
                decision.matched_rule@,
            )
            &&& stored.record.destination_host == Some(sni@)
            &&& stored.record.destination_ip == Some(dst.ip)
            &&& stored.record.destination_port == Some(dst.port)
            &&& stored.record.transport == "tcp"@
            &&& stored.record.protocol == Some("tls"@)
            &&& stored.record.sni == Some(sni@)
            &&& stored.record.http_authority is None
            &&& stored.record.correlation_id == text::optional_text(correlation_id)
            &&& stored.record.matched_rule == Some(decision.matched_rule@)
        },
{
}

/// The event that a TLS decision returns is the one that the log keeps, but for its reason:
/// that is the override where one is given.
pub proof fn law_tls_override_changes_only_the_returned_reason(
    shared: &mut SharedState,
    decision: &PolicyDecision,
    dst: SocketAddr,
    sni: &str,
    correlation_id: Option<String>,
    reason_override: Option<&str>,
    event: NetworkDecisionEvent,
)
    requires
        old(shared).decisions.well_formed(),
        call_ensures(
            emit_tls,
            (shared, decision, dst, sni, correlation_id, reason_override),
            Some(event),
        ),
    ensures
        ({
            let stored = final(shared).decisions@.history.last();
            &&& event.reason@ == match reason_override {
                Some(reason) => reason@,
                None => stored.record.reason,
            }
            &&& event.sequence == stored.sequence
            &&& event.timestamp@ == stored.timestamp
            &&& event.phase == stored.record.phase
            &&& event.action == stored.record.action
            &&& text::optional_text(event.destination_host) == stored.record.destination_host
            &&& event.destination_ip == stored.record.destination_ip
            &&& event.destination_port == stored.record.destination_port
            &&& event.transport@ == stored.record.transport
            &&& text::optional_text(event.protocol) == stored.record.protocol
            &&& text::optional_text(event.sni) == stored.record.sni
            &&& text::optional_text(event.http_authority) == stored.record.http_authority
            &&& text::optional_text(event.correlation_id) == stored.record.correlation_id
            &&& text::optional_text(event.matched_rule) == stored.record.matched_rule
            &&& event.dropped_count == stored.dropped_count
            &&& event.earliest_retained_sequence == stored.earliest_retained_sequence
        }),
{
}

/// An operational error is always recorded, as an error, and its event carries what the call
/// gave. No rule decided it.
pub proof fn law_error_event_says_what_failed(
    shared: &mut SharedState,
    phase: DecisionPhase,
    reason: &str,
    dst: SocketAddr,
    transport: &str,
    protocol: Option<&str>,
    host: Option<String>,
    sni: Option<String>,
    correlation_id: Option<String>,
    event: NetworkDecisionEvent,
)
    requires
        old(shared).decisions.well_formed(),
        call_ensures(
            emit_error,
            (shared, phase, reason, dst, transport, protocol, host, sni, correlation_id),
            event,
        ),
    ensures
        final(shared).decisions.well_formed(),
        final(shared).queue_capacity == old(shared).queue_capacity,
        final(shared).decisions@.capacity == old(shared).decisions@.capacity,
        final(shared).decisions@.closed == old(shared).decisions@.closed,
        final(shared).decisions@.history == old(shared).decisions@.history.push(event@),
        timestamp::is_clock_text(event.timestamp@),
        event.phase == phase,
        event.action == DecisionAction::Error,
        event.reason@ == reason@,
        text::optional_text(event.destination_host) == text::optional_text(host),
        event.destination_ip == Some(dst.ip),
        event.destination_port == Some(dst.port),
        event.transport@ == transport@,
        text::optional_text(event.protocol) == match protocol {
            Some(protocol) => Some(protocol@),
            None => None,
        },
        text::optional_text(event.sni) == text::optional_text(sni),
        text::optional_text(event.http_authority) == None::<Seq<char>>,
        text::optional_text(event.correlation_id) == text::optional_text(correlation_id),
        text::optional_text(event.matched_rule) == None::<Seq<char>>,
{
}

/// What an enforcement site records on the shared state is appended to its log as it is.
pub proof fn law_shared_event_says_what_was_recorded(
    shared: &mut SharedState,
    record: DecisionRecord,
    event: NetworkDecisionEvent,
)
    requires
        old(shared).decisions.well_formed(),
        call_ensures(emit, (shared, record), event),
    ensures
        final(shared).decisions.well_formed(),
        final(shared).queue_capacity == old(shared).queue_capacity,
        final(shared).decisions@.capacity == old(shared).decisions@.capacity,
        final(shared).decisions@.closed == old(shared).decisions@.closed,
        final(shared).decisions@.history == old(shared).decisions@.history.push(event@),
        timestamp::is_clock_text(event.timestamp@),
        event.phase == record.phase,
        event.action == record.action,
        event.reason@ == record.reason@,
        text::optional_text(event.destination_host) == text::optional_text(record.destination_host),
        event.destination_ip == record.destination_ip,
        event.destination_port == record.destination_port,
        event.transport@ == record.transport@,
        text::optional_text(event.protocol) == text::optional_text(record.protocol),
        text::optional_text(event.sni) == text::optional_text(record.sni),
        text::optional_text(event.http_authority) == text::optional_text(record.http_authority),
        text::optional_text(event.correlation_id) == text::optional_text(record.correlation_id),
        text::optional_text(event.matched_rule) == text::optional_text(record.matched_rule),
{
}

/// A connection decision gives a record exactly where it is final, and the record carries what
/// was given.
pub proof fn law_connection_record_says_what_was_decided(
    phase: DecisionPhase,
    transport: &str,
    protocol: Option<&str>,
    decision: &PolicyDecision,
    dst: SocketAddr,
    host: Option<String>,
    sni: Option<String>,
    http_authority: Option<String>,
    correlation_id: Option<String>,
    record: Option<DecisionRecord>,
)
    requires
        call_ensures(
            connection_record,
            (
                phase,
                transport,
                protocol,
                decision,
                dst,
                host,
                sni,
                http_authority,
                correlation_id,
            ),
            record,
        ),
    ensures
        record is Some <==> decision.evaluation == EgressEvaluation::Allow || decision.evaluation
            == EgressEvaluation::Deny,
        record matches Some(record) ==> {
            &&& record.phase == phase
            &&& (record.action == DecisionAction::Allow <==> decision.evaluation
                == EgressEvaluation::Allow)
            &&& (record.action == DecisionAction::Deny <==> decision.evaluation
                == EgressEvaluation::Deny)
            &&& record.reason@ == emit::reason_text(
                if decision.evaluation == EgressEvaluation::Allow {
                    Action::Allow
                } else {
                    Action::Deny
                },
                decision.matched_rule@,
            )
            &&& text::optional_text(record.destination_host) == text::optional_text(host)
            &&& record.destination_ip == Some(dst.ip)
            &&& record.destination_port == Some(dst.port)
            &&& record.transport@ == transport@
            &&& text::optional_text(record.protocol) == match protocol {
                Some(protocol) => Some(protocol@),
                None => None,
            }
            &&& text::optional_text(record.sni) == text::optional_text(sni)
            &&& text::optional_text(record.http_authority) == text::optional_text(http_authority)
            &&& text::optional_text(record.correlation_id) == text::optional_text(correlation_id)
            &&& text::optional_text(record.matched_rule) == Some(decision.matched_rule@)
        },
{
}

/// State starts with an empty, open log and the queue capacity that was asked for. Where no
/// capacity of the log is asked for, it retains 4,096 events; any that is asked for is kept
/// between 16 and 100,000.
pub proof fn law_new_state_has_an_empty_log(
    queue_capacity: usize,
    decision_capacity: usize,
    plain: SharedState,
    sized: SharedState,
)
    requires
        call_ensures(SharedState::new, (queue_capacity,), plain),
        call_ensures(
            SharedState::with_decision_capacity,
            (queue_capacity, decision_capacity),
            sized,
        ),
    ensures
        plain.queue_capacity == queue_capacity,
        plain.decisions.well_formed(),
        plain.decisions@.history.len() == 0,
        !plain.decisions@.closed,
        plain.decisions@.capacity == 4_096,
        sized.queue_capacity == queue_capacity,
        sized.decisions.well_formed(),
        sized.decisions@.history.len() == 0,
        !sized.decisions@.closed,
        sized.decisions@.capacity == if decision_capacity < 16 {
            16int
        } else if decision_capacity > 100_000 {
            100_000int
        } else {
            decision_capacity as int
        },
{
}

/// The log of the shared state is the one that its enforcement sites record on.
pub proof fn law_shared_log_is_the_one_recorded_on(shared: &SharedState, log: &DecisionLog)
    requires
        call_ensures(SharedState::decisions, (shared,), log),
    ensures
        *log == shared.decisions,
{
}

} // verus!
