//! Network-decision events.

use vstd::prelude::*;

use crate::address::IpAddr;
use crate::text;

verus! {

/// Default per-sandbox ring-buffer capacity.
pub const DEFAULT_DECISION_BUFFER_CAPACITY: usize = 4096;

/// Lower bound accepted for [`clamp_decision_buffer_capacity`].
pub const MIN_DECISION_BUFFER_CAPACITY: usize = 16;

/// Upper bound accepted for [`clamp_decision_buffer_capacity`].
pub const MAX_DECISION_BUFFER_CAPACITY: usize = 100_000;

/// Enforcement phase that produced a decision.
#[derive(Debug, Clone, Copy, PartialEq, Eq, Structural)]
pub enum DecisionPhase {
    /// DNS query policy.
    Dns,
    /// TCP connection policy.
    Tcp,
    /// UDP datagram policy.
    Udp,
    /// TLS/SNI inspection.
    Tls,
    /// HTTP request policy (plaintext or intercepted).
    Http,
}

/// Final action taken at an enforcement point.
#[derive(Debug, Clone, Copy, PartialEq, Eq, Structural)]
pub enum DecisionAction {
    /// Traffic was permitted.
    Allow,
    /// Traffic was refused by policy.
    Deny,
    /// Enforcement failed operationally (timeout, malformed handshake).
    Error,
}

/// One recorded enforcement decision.
///
/// The schema is intentionally header- and body-free. Request bodies,
/// credentials, authorization headers, cookies, TLS private material, and
/// secret-substitution values must never appear here.
#[derive(Debug, PartialEq, Eq)]
pub struct NetworkDecisionEvent {
    /// Monotonic per-sandbox sequence, starting at 1.
    pub sequence: u64,
    /// UTC timestamp as RFC 3339 with millisecond precision.
    pub timestamp: String,
    /// Enforcement phase.
    pub phase: DecisionPhase,
    /// Action taken.
    pub action: DecisionAction,
    /// Stable machine-readable reason (`policy_allow`, `policy_deny`, ...).
    pub reason: String,
    /// Destination hostname when known (query name, SNI, or HTTP authority).
    pub destination_host: Option<String>,
    /// Resolved destination IP when known.
    pub destination_ip: Option<IpAddr>,
    /// Destination port when known.
    pub destination_port: Option<u16>,
    /// Transport: `tcp` or `udp`, or `icmp` for a DNS decision made on an ICMP protocol.
    pub transport: String,
    /// Application protocol when known (`dns`, `tls`, `http`).
    pub protocol: Option<String>,
    /// TLS SNI when this decision inspected a ClientHello.
    pub sni: Option<String>,
    /// HTTP authority (`Host` / `:authority`) when inspected.
    pub http_authority: Option<String>,
    /// Connection or request correlation identifier.
    pub correlation_id: Option<String>,
    /// Matched rule identifier or stable policy-match description.
    pub matched_rule: Option<String>,
    /// Count of events discarded because the ring buffer wrapped.
    pub dropped_count: u64,
    /// Sequence of the oldest event still retained, or `0` when empty.
    pub earliest_retained_sequence: u64,
}

/// What an enforcement site says of a decision, as mathematical values.
#[verifier::ext_equal]
pub struct RecordView {
    /// Enforcement phase.
    pub phase: DecisionPhase,
    /// Action taken.
    pub action: DecisionAction,
    /// Stable reason string.
    pub reason: Seq<char>,
    /// Destination hostname.
    pub destination_host: Option<Seq<char>>,
    /// Destination IP.
    pub destination_ip: Option<IpAddr>,
    /// Destination port.
    pub destination_port: Option<u16>,
    /// Transport.
    pub transport: Seq<char>,
    /// Application protocol.
    pub protocol: Option<Seq<char>>,
    /// TLS SNI.
    pub sni: Option<Seq<char>>,
    /// HTTP authority.
    pub http_authority: Option<Seq<char>>,
    /// Correlation identifier.
    pub correlation_id: Option<Seq<char>>,
    /// Matched rule.
    pub matched_rule: Option<Seq<char>>,
}

/// An event as mathematical values: what the enforcement site said of the decision, and what
/// the ring buffer added to it.
#[verifier::ext_equal]
pub struct EventView {
    /// Sequence of the event.
    pub sequence: u64,
    /// When it was recorded.
    pub timestamp: Seq<char>,
    /// What was recorded.
    pub record: RecordView,
    /// Events discarded up to and with this one.
    pub dropped_count: u64,
    /// Oldest sequence retained once this event was recorded.
    pub earliest_retained_sequence: u64,
}

impl View for NetworkDecisionEvent {
    type V = EventView;

    open spec fn view(&self) -> EventView {
        EventView {
            sequence: self.sequence,
            timestamp: self.timestamp@,
            record: RecordView {
                phase: self.phase,
                action: self.action,
                reason: self.reason@,
                destination_host: text::optional_text(self.destination_host),
                destination_ip: self.destination_ip,
                destination_port: self.destination_port,
                transport: self.transport@,
                protocol: text::optional_text(self.protocol),
                sni: text::optional_text(self.sni),
                http_authority: text::optional_text(self.http_authority),
                correlation_id: text::optional_text(self.correlation_id),
                matched_rule: text::optional_text(self.matched_rule),
            },
            dropped_count: self.dropped_count,
            earliest_retained_sequence: self.earliest_retained_sequence,
        }
    }
}

impl Clone for NetworkDecisionEvent {
    fn clone(&self) -> (copy: Self)
        ensures
            copy == *self,
    {
        NetworkDecisionEvent {
            sequence: self.sequence,
            timestamp: self.timestamp.clone(),
            phase: self.phase,
            action: self.action,
            reason: self.reason.clone(),
            destination_host: self.destination_host.clone(),
            destination_ip: self.destination_ip,
            destination_port: self.destination_port,
            transport: self.transport.clone(),
            protocol: self.protocol.clone(),
            sni: self.sni.clone(),
            http_authority: self.http_authority.clone(),
            correlation_id: self.correlation_id.clone(),
            matched_rule: self.matched_rule.clone(),
            dropped_count: self.dropped_count,
            earliest_retained_sequence: self.earliest_retained_sequence,
        }
    }
}

/// The number of the range from `low` to `high` that is closest to `value`.
pub open spec fn closest_in_range(value: int, low: int, high: int) -> int {
    if value < low {
        low
    } else if value > high {
        high
    } else {
        value
    }
}

/// Clamp a configured ring-buffer capacity into the supported range.
pub fn clamp_decision_buffer_capacity(capacity: usize) -> (clamped: usize)
    ensures
        clamped == closest_in_range(
            capacity as int,
            MIN_DECISION_BUFFER_CAPACITY as int,
            MAX_DECISION_BUFFER_CAPACITY as int,
        ),
{
    if capacity < MIN_DECISION_BUFFER_CAPACITY {
        MIN_DECISION_BUFFER_CAPACITY
    } else if capacity > MAX_DECISION_BUFFER_CAPACITY {
        MAX_DECISION_BUFFER_CAPACITY
    } else {
        capacity
    }
}

/// A clamped capacity is in the supported range, a supported one is kept as it is, and
/// clamping again changes nothing.
pub proof fn law_clamped_capacity_is_supported(capacity: int)
    ensures
        ({
            let low = MIN_DECISION_BUFFER_CAPACITY as int;
            let high = MAX_DECISION_BUFFER_CAPACITY as int;
            let clamped = closest_in_range(capacity, low, high);
            &&& low <= clamped <= high
            &&& low <= capacity <= high ==> clamped == capacity
            &&& closest_in_range(clamped, low, high) == clamped
        }),
{
}

/// A capacity of 16 to 100,000 events is kept as it is, and any other becomes the nearer of the
/// two; the default lies between them.
pub proof fn law_capacity_is_clamped(capacity: usize, clamped: usize)
    requires
        call_ensures(clamp_decision_buffer_capacity, (capacity,), clamped),
    ensures
        16 <= clamped <= 100_000,
        16 <= capacity <= 100_000 ==> clamped == capacity,
        capacity < 16 ==> clamped == 16,
        capacity > 100_000 ==> clamped == 100_000,
        DEFAULT_DECISION_BUFFER_CAPACITY == 4_096,
{
}

/// A copy of an event is the event.
pub proof fn law_copied_event_is_the_event(
    event: &NetworkDecisionEvent,
    copy: NetworkDecisionEvent,
)
    requires
        call_ensures(NetworkDecisionEvent::clone, (event,), copy),
    ensures
        copy == *event,
{
}

} // verus!
