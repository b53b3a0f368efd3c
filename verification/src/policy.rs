//! What the policy engine says of a request.

use vstd::prelude::*;

verus! {

/// Action of a policy rule.
#[derive(Debug, Clone, Copy, PartialEq, Eq, Structural)]
pub enum Action {
    /// Permit the traffic.
    Allow,
    /// Refuse the traffic.
    Deny,
}

/// Protocol that a rule speaks of.
#[derive(Debug, Clone, Copy, PartialEq, Eq, Structural)]
pub enum Protocol {
    /// TCP.
    Tcp,
    /// UDP.
    Udp,
    /// ICMP over IPv4.
    Icmpv4,
    /// ICMP over IPv6.
    Icmpv6,
}

/// Outcome of evaluating egress traffic.
#[derive(Debug, Clone, Copy, PartialEq, Eq, Structural)]
pub enum EgressEvaluation {
    /// The traffic is permitted.
    Allow,
    /// The traffic is refused.
    Deny,
    /// The decision waits for a hostname.
    DeferUntilHostname,
    /// The decision waits for an HTTP request.
    DeferUntilHttp,
}

/// An evaluation together with the rule that decided it.
#[derive(Debug, PartialEq, Eq)]
pub struct PolicyDecision {
    /// What was decided.
    pub evaluation: EgressEvaluation,
    /// The rule, or the default, that matched.
    pub matched_rule: String,
}

impl Clone for PolicyDecision {
    fn clone(&self) -> (copy: Self)
        ensures
            copy == *self,
    {
        PolicyDecision { evaluation: self.evaluation, matched_rule: self.matched_rule.clone() }
    }
}

/// A copy of a decision is the decision.
pub proof fn law_copied_decision_is_the_decision(decision: &PolicyDecision, copy: PolicyDecision)
    requires
        call_ensures(PolicyDecision::clone, (decision,), copy),
    ensures
        copy == *decision,
{
}

} // verus!
