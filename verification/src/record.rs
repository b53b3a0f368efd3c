//! What an enforcement site says of a decision.

use vstd::prelude::*;

use crate::address::IpAddr;
use crate::text;
use crate::types::{DecisionAction, DecisionPhase, RecordView};

verus! {

/// Fields supplied by an enforcement site. Sequence, timestamp, and
/// overflow counters are filled by the ring buffer.
#[derive(Debug)]
pub struct DecisionRecord {
    /// Enforcement phase.
    pub phase: DecisionPhase,
    /// Action taken.
    pub action: DecisionAction,
    /// Stable reason string.
    pub reason: String,
    /// Destination hostname when known.
    pub destination_host: Option<String>,
    /// Destination IP when known.
    pub destination_ip: Option<IpAddr>,
    /// Destination port when known.
    pub destination_port: Option<u16>,
    /// `tcp` or `udp`, or `icmp` for a DNS decision made on an ICMP protocol.
    pub transport: String,
    /// Application protocol when known.
    pub protocol: Option<String>,
    /// TLS SNI when inspected.
    pub sni: Option<String>,
    /// HTTP authority when inspected.
    pub http_authority: Option<String>,
    /// Correlation identifier.
    pub correlation_id: Option<String>,
    /// Matched rule description.
    pub matched_rule: Option<String>,
}

impl View for DecisionRecord {
    type V = RecordView;

    open spec fn view(&self) -> RecordView {
        RecordView {
            phase: self.phase,
            action: self.action,
            reason: self.reason@,
            destination_host: text::optional_text(self.destination_host),
            destination_ip: self.destination_ip,
            destination_port: self.destination_port,
            transport: self.transport@,
            protocol: text::optional_text(self.protocol),
            sni: text::optional_text(self.sni),
            http_authority: text::optional_text(self.http_authority),
            correlation_id: text::optional_text(self.correlation_id),
            matched_rule: text::optional_text(self.matched_rule),
        }
    }
}

impl Clone for DecisionRecord {
    fn clone(&self) -> (copy: Self)
        ensures
            copy == *self,
    {
        DecisionRecord {
            phase: self.phase,
            action: self.action,
            reason: self.reason.clone(),
            destination_host: self.destination_host.clone(),
            destination_ip: self.destination_ip,
            destination_port: self.destination_port,
            transport: self.transport.clone(),
            protocol: self.protocol.clone(),
            sni: self.sni.clone(),
            http_authority: self.http_authority.clone(),
            correlation_id: self.correlation_id.clone(),
            matched_rule: self.matched_rule.clone(),
        }
    }
}

/// A copy of a record is the record.
pub proof fn law_copied_record_is_the_record(record: &DecisionRecord, copy: DecisionRecord)
    requires
        call_ensures(DecisionRecord::clone, (record,), copy),
    ensures
        copy == *record,
{
}

} // verus!
