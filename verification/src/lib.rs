//! Per-sandbox network-policy decision log.
//!
//! Every DNS, TCP, UDP, TLS, and HTTP enforcement decision is recorded
//! into a bounded ring buffer. Consumers replay retained events after a
//! sequence cursor and can follow new events until the sandbox stops.
//! Overflow is never silent: dropped-event counts travel with every event
//! and snapshot.

pub mod address;
pub mod calendar;
pub mod emit;
pub mod enforcement;
pub mod error;
pub mod guarantees;
pub mod log;
pub mod policy;
pub mod python;
pub mod record;
pub mod request;
pub mod shared;
pub mod stream;
pub mod text;
pub mod timestamp;
pub mod types;

pub use address::{IpAddr, SocketAddr};
pub use emit::{
    action_from_policy, emit, emit_dns, emit_error, emit_http, emit_tcp, emit_tls, emit_udp,
    reason_for_action,
};
pub use error::MicrosandboxError;
pub use log::{DecisionLog, DecisionSnapshot, FollowOutcome};
pub use policy::{Action, EgressEvaluation, PolicyDecision, Protocol};
pub use python::{convert_event, PyNetworkDecision};
pub use record::DecisionRecord;
pub use shared::SharedState;
pub use stream::{
    NetworkDecisionEnd, NetworkDecisionItem, NetworkDecisionOptions, NetworkDecisionStream,
};
pub use types::{
    clamp_decision_buffer_capacity, DecisionAction, DecisionPhase, NetworkDecisionEvent,
    DEFAULT_DECISION_BUFFER_CAPACITY, MAX_DECISION_BUFFER_CAPACITY, MIN_DECISION_BUFFER_CAPACITY,
};
