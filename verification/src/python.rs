//! What a Python program sees of a decision stream.

use vstd::prelude::*;

use crate::address;
use crate::error::MicrosandboxError;
use crate::stream::NetworkDecisionItem;
use crate::text;
use crate::types::{DecisionAction, DecisionPhase, NetworkDecisionEvent};

verus! {

/// One network-policy enforcement event, in types that Python has.
#[derive(Debug, PartialEq, Eq)]
pub struct PyNetworkDecision {
    /// Sequence of the event.
    pub sequence: u64,
    /// When it was recorded.
    pub timestamp: String,
    /// Name of the enforcement phase.
    pub phase: String,
    /// Name of the action taken.
    pub action: String,
    /// Stable reason string.
    pub reason: String,
    /// Destination hostname when known.
    pub destination_host: Option<String>,
    /// Destination IP, as text, when known.
    pub destination_ip: Option<String>,
    /// Destination port when known.
    pub destination_port: Option<u16>,
    /// Transport.
    pub transport: String,
    /// Application protocol when known.
    pub protocol: Option<String>,
    /// TLS SNI when inspected.
    pub sni: Option<String>,
    /// HTTP authority when inspected.
    pub http_authority: Option<String>,
    /// Correlation identifier.
    pub correlation_id: Option<String>,
    /// Matched rule description.
    pub matched_rule: Option<String>,
    /// Events discarded because the ring buffer wrapped.
    pub dropped_count: u64,
    /// Sequence of the oldest event still retained.
    pub earliest_retained_sequence: u64,
}

/// What the next step of an asynchronous iteration does.
#[derive(Debug)]
pub enum PyStep {
    /// It hands out an event.
    Item(PyNetworkDecision),
    /// It stops the iteration.
    Stop,
    /// It raises an error.
    Raise(MicrosandboxError),
}

/// The name of a phase.
pub open spec fn phase_text(phase: DecisionPhase) -> Seq<char> {
    match phase {
        DecisionPhase::Dns => "dns"@,
        DecisionPhase::Tcp => "tcp"@,
        DecisionPhase::Udp => "udp"@,
        DecisionPhase::Tls => "tls"@,
        DecisionPhase::Http => "http"@,
    }
}

/// The name of an action.
pub open spec fn action_text(action: DecisionAction) -> Seq<char> {
    match action {
        DecisionAction::Allow => "allow"@,
        DecisionAction::Deny => "deny"@,
        DecisionAction::Error => "error"@,
    }
}

/// Whether `shown` is what Python sees of `event`.
pub open spec fn shows(shown: PyNetworkDecision, event: NetworkDecisionEvent) -> bool {
    &&& shown.sequence == event.sequence
    &&& shown.timestamp@ == event.timestamp@
    &&& shown.phase@ == phase_text(event.phase)
    &&& shown.action@ == action_text(event.action)
    &&& shown.reason@ == event.reason@
    &&& text::optional_text(shown.destination_host) == text::optional_text(event.destination_host)
    &&& text::optional_text(shown.destination_ip) == match event.destination_ip {
        Some(ip) => Some(address::ip_text(ip)),
        None => None,
    }
    &&& shown.destination_port == event.destination_port
    &&& shown.transport@ == event.transport@
    &&& text::optional_text(shown.protocol) == text::optional_text(event.protocol)
    &&& text::optional_text(shown.sni) == text::optional_text(event.sni)
    &&& text::optional_text(shown.http_authority) == text::optional_text(event.http_authority)
    &&& text::optional_text(shown.correlation_id) == text::optional_text(event.correlation_id)
    &&& text::optional_text(shown.matched_rule) == text::optional_text(event.matched_rule)
    &&& shown.dropped_count == event.dropped_count
    &&& shown.earliest_retained_sequence == event.earliest_retained_sequence
}

/// The name of a phase.
pub fn phase_label(phase: DecisionPhase) -> (label: String)
    ensures
        label@ == phase_text(phase),
{
    match phase {
        DecisionPhase::Dns => "dns".to_string(),
        DecisionPhase::Tcp => "tcp".to_string(),
        DecisionPhase::Udp => "udp".to_string(),
        DecisionPhase::Tls => "tls".to_string(),
        DecisionPhase::Http => "http".to_string(),
    }
}

/// The name of an action.
pub fn action_label(action: DecisionAction) -> (label: String)
    ensures
        label@ == action_text(action),
{
    match action {
        DecisionAction::Allow => "allow".to_string(),
        DecisionAction::Deny => "deny".to_string(),
        DecisionAction::Error => "error".to_string(),
    }
}

/// What Python sees of `event`.
pub fn convert_event(event: &NetworkDecisionEvent) -> (shown: PyNetworkDecision)
    ensures
        shows(shown, *event),
{
    PyNetworkDecision {
        sequence: event.sequence,
        timestamp: event.timestamp.clone(),
        phase: phase_label(event.phase),
        action: action_label(event.action),
        reason: event.reason.clone(),
        destination_host: event.destination_host.clone(),
        destination_ip: match event.destination_ip {
            Some(ip) => Some(ip.to_text()),
            None => None,
        },
        destination_port: event.destination_port,
        transport: event.transport.clone(),
        protocol: event.protocol.clone(),
        sni: event.sni.clone(),
        http_authority: event.http_authority.clone(),
        correlation_id: event.correlation_id.clone(),
        matched_rule: event.matched_rule.clone(),
        dropped_count: event.dropped_count,
        earliest_retained_sequence: event.earliest_retained_sequence,
    }
}

/// What the iteration does with the next item of a stream: an event is handed out; an end, or
/// the lack of an item, stops it; an error is raised.
pub fn next_step(item: Option<Result<NetworkDecisionItem, MicrosandboxError>>) -> (step: PyStep)
    ensures
        match item {
            Some(Ok(NetworkDecisionItem::Event(event))) => step matches PyStep::Item(shown)
                && shows(shown, event),
            Some(Ok(NetworkDecisionItem::End(_))) => step is Stop,
            Some(Err(error)) => step == PyStep::Raise(error),
            None => step is Stop,
        },
{
    match item {
        Some(Ok(NetworkDecisionItem::Event(event))) => PyStep::Item(convert_event(&event)),
        Some(Ok(NetworkDecisionItem::End(_))) => PyStep::Stop,
        Some(Err(error)) => PyStep::Raise(error),
        None => PyStep::Stop,
    }
}

/// Each phase and each action has its own name, in lower case.
pub proof fn law_phases_and_actions_are_named(
    phase: DecisionPhase,
    action: DecisionAction,
    phase_name: String,
    action_name: String,
)
    requires
        call_ensures(phase_label, (phase,), phase_name),
        call_ensures(action_label, (action,), action_name),
    ensures
        phase_name@ == "dns"@ <==> phase == DecisionPhase::Dns,
        phase_name@ == "tcp"@ <==> phase == DecisionPhase::Tcp,
        phase_name@ == "udp"@ <==> phase == DecisionPhase::Udp,
        phase_name@ == "tls"@ <==> phase == DecisionPhase::Tls,
        phase_name@ == "http"@ <==> phase == DecisionPhase::Http,
        action_name@ == "allow"@ <==> action == DecisionAction::Allow,
        action_name@ == "deny"@ <==> action == DecisionAction::Deny,
        action_name@ == "error"@ <==> action == DecisionAction::Error,
{
    lemma_names_differ();
}

/// The names differ in their first three characters.
proof fn lemma_names_differ()
    ensures
        "dns"@[0] != "tcp"@[0],
        "dns"@[0] != "udp"@[0],
        "dns"@[0] != "tls"@[0],
        "dns"@[0] != "http"@[0],
        "udp"@[0] != "tcp"@[0],
        "udp"@[0] != "tls"@[0],
        "udp"@[0] != "http"@[0],
        "http"@[0] != "tcp"@[0],
        "http"@[0] != "tls"@[0],
        "tcp"@[1] != "tls"@[1],
        "allow"@[0] != "deny"@[0],
        "allow"@[0] != "error"@[0],
        "deny"@[0] != "error"@[0],
{
    reveal_strlit("dns");
    reveal_strlit("tcp");
    reveal_strlit("udp");
    reveal_strlit("tls");
    reveal_strlit("http");
    reveal_strlit("allow");
    reveal_strlit("deny");
    reveal_strlit("error");
}

/// What Python sees of an event is the event, field by field: its phase and its action by name,
/// its address in text, and all else as it is.
pub proof fn law_python_sees_the_event(event: &NetworkDecisionEvent, shown: PyNetworkDecision)
    requires
        call_ensures(convert_event, (event,), shown),
    ensures
        shown.sequence == event.sequence,
        shown.timestamp@ == event.timestamp@,
        shown.phase@ == (match event.phase {
            DecisionPhase::Dns => "dns"@,
            DecisionPhase::Tcp => "tcp"@,
            DecisionPhase::Udp => "udp"@,
            DecisionPhase::Tls => "tls"@,
            DecisionPhase::Http => "http"@,
        }),
        shown.action@ == (match event.action {
            DecisionAction::Allow => "allow"@,
            DecisionAction::Deny => "deny"@,
            DecisionAction::Error => "error"@,
        }),
        shown.reason@ == event.reason@,
        text::optional_text(shown.destination_host) == text::optional_text(event.destination_host),
        shown.destination_ip is Some <==> event.destination_ip is Some,
        shown.destination_ip matches Some(shown) ==> shown@ == address::ip_text(
            event.destination_ip->Some_0,
        ),
        shown.destination_port == event.destination_port,
        shown.transport@ == event.transport@,
        text::optional_text(shown.protocol) == text::optional_text(event.protocol),
        text::optional_text(shown.sni) == text::optional_text(event.sni),
        text::optional_text(shown.http_authority) == text::optional_text(event.http_authority),
        text::optional_text(shown.correlation_id) == text::optional_text(event.correlation_id),
        text::optional_text(shown.matched_rule) == text::optional_text(event.matched_rule),
        shown.dropped_count == event.dropped_count,
        shown.earliest_retained_sequence == event.earliest_retained_sequence,
{
}

/// The iteration hands out an item exactly where the stream yields an event, raises exactly the
/// errors that the stream yields, and stops in all other cases.
pub proof fn law_iteration_follows_the_stream(
    item: Option<Result<NetworkDecisionItem, MicrosandboxError>>,
    step: PyStep,
)
    requires
        call_ensures(next_step, (item,), step),
    ensures
        step is Item <==> (item matches Some(Ok(NetworkDecisionItem::Event(_)))),
        step is Raise <==> (item matches Some(Err(_))),
        step matches PyStep::Raise(error) ==> item == Some(
            Err::<NetworkDecisionItem, MicrosandboxError>(error),
        ),
{
}

/// The item that the iteration hands out for an event is what Python sees of that event.
pub proof fn law_iteration_hands_out_the_event(
    event: NetworkDecisionEvent,
    handed_out: PyNetworkDecision,
)
    requires
        call_ensures(
            next_step,
            (Some(Ok(NetworkDecisionItem::Event(event))),),
            PyStep::Item(handed_out),
        ),
    ensures
        handed_out.sequence == event.sequence,
        handed_out.timestamp@ == event.timestamp@,
        handed_out.phase@ == phase_text(event.phase),
        handed_out.action@ == action_text(event.action),
        handed_out.reason@ == event.reason@,
        text::optional_text(handed_out.destination_host) == text::optional_text(event.destination_host),
        handed_out.destination_ip is Some <==> event.destination_ip is Some,
        handed_out.destination_ip matches Some(shown) ==> shown@ == address::ip_text(
            event.destination_ip->Some_0,
        ),
        handed_out.destination_port == event.destination_port,
        handed_out.transport@ == event.transport@,
        text::optional_text(handed_out.protocol) == text::optional_text(event.protocol),
        text::optional_text(handed_out.sni) == text::optional_text(event.sni),
        text::optional_text(handed_out.http_authority) == text::optional_text(event.http_authority),
        text::optional_text(handed_out.correlation_id) == text::optional_text(event.correlation_id),
        text::optional_text(handed_out.matched_rule) == text::optional_text(event.matched_rule),
        handed_out.dropped_count == event.dropped_count,
        handed_out.earliest_retained_sequence == event.earliest_retained_sequence,
{
}

} // verus!
