//! Bounded per-sandbox ring buffer for network decisions.

use std::collections::VecDeque;

use vstd::prelude::*;

use crate::record::DecisionRecord;
use crate::timestamp::{self, utc_timestamp};
use crate::types::{
    self, clamp_decision_buffer_capacity, EventView, NetworkDecisionEvent, RecordView,
    DEFAULT_DECISION_BUFFER_CAPACITY, MAX_DECISION_BUFFER_CAPACITY, MIN_DECISION_BUFFER_CAPACITY,
};

verus! {

/// Ring buffer of enforcement decisions for one sandbox.
pub struct DecisionLog {
    events: VecDeque<NetworkDecisionEvent>,
    next_sequence: u64,
    dropped_count: u64,
    earliest_retained_sequence: u64,
    closed: bool,
    capacity: usize,
    history: Ghost<Seq<EventView>>,
}

/// Snapshot of retained events after an exclusive sequence cursor.
#[derive(Debug, PartialEq, Eq)]
pub struct DecisionSnapshot {
    /// Events with `sequence > after`.
    pub events: Vec<NetworkDecisionEvent>,
    /// Events discarded because the buffer wrapped.
    pub dropped_count: u64,
    /// Oldest retained sequence, or `0` when the buffer is empty.
    pub earliest_retained_sequence: u64,
    /// Next sequence that will be assigned.
    pub next_sequence: u64,
    /// Whether the sandbox (or log) has closed.
    pub closed: bool,
}

/// Result of waiting for events after a cursor.
#[derive(Debug, PartialEq, Eq)]
pub enum FollowOutcome {
    /// One or more new events, possibly with a closed flag.
    Events {
        /// Newly available events.
        events: Vec<NetworkDecisionEvent>,
        /// The log closed after these events.
        closed: bool,
        /// Cumulative wrap count.
        dropped_count: u64,
        /// Oldest retained sequence.
        earliest_retained_sequence: u64,
    },
    /// No further events will arrive.
    Closed {
        /// Cumulative wrap count.
        dropped_count: u64,
        /// Oldest retained sequence.
        earliest_retained_sequence: u64,
    },
}

/// A log as mathematical values: every event that was ever recorded, of which the newest
/// `capacity` are retained.
#[verifier::ext_equal]
pub struct LogView {
    /// How many events are retained at most.
    pub capacity: nat,
    /// Every event recorded so far, the oldest first.
    pub history: Seq<EventView>,
    /// Whether the log has closed.
    pub closed: bool,
}

/// A snapshot as mathematical values.
#[verifier::ext_equal]
pub struct SnapshotView {
    /// Retained events after the cursor.
    pub events: Seq<EventView>,
    /// Events discarded because the buffer wrapped.
    pub dropped_count: u64,
    /// Oldest retained sequence.
    pub earliest_retained_sequence: u64,
    /// Next sequence that will be assigned.
    pub next_sequence: u64,
    /// Whether the log has closed.
    pub closed: bool,
}

/// What a follower is told, as mathematical values.
#[verifier::ext_equal]
pub enum FollowView {
    /// New events.
    Events {
        /// Retained events after the cursor.
        events: Seq<EventView>,
        /// Whether the log has closed.
        closed: bool,
        /// Events discarded because the buffer wrapped.
        dropped_count: u64,
        /// Oldest retained sequence.
        earliest_retained_sequence: u64,
    },
    /// No further events.
    Closed {
        /// Events discarded because the buffer wrapped.
        dropped_count: u64,
        /// Oldest retained sequence.
        earliest_retained_sequence: u64,
    },
}

/// `count`, or the largest 64-bit number where it is larger.
pub open spec fn saturated(count: nat) -> u64 {
    if count > u64::MAX {
        u64::MAX
    } else {
        count as u64
    }
}

/// How many of `recorded` events a buffer of `capacity` has retained.
pub open spec fn retained_count(recorded: nat, capacity: nat) -> nat {
    if recorded < capacity {
        recorded
    } else {
        capacity
    }
}

/// The events among `events` whose sequence lies after the cursor, in the same order.
pub open spec fn after_cursor(events: Seq<EventView>, after: u64) -> Seq<EventView> {
    events.filter(|event: EventView| event.sequence > after)
}

/// The values of a sequence of events.
pub open spec fn event_views(events: Seq<NetworkDecisionEvent>) -> Seq<EventView> {
    events.map_values(|event: NetworkDecisionEvent| event@)
}

/// The event that is recorded when `index` events were recorded before it.
pub open spec fn numbered_event(
    index: nat,
    capacity: nat,
    record: RecordView,
    timestamp: Seq<char>,
) -> EventView {
    let dropped = (index + 1 - retained_count(index + 1, capacity)) as nat;
    EventView {
        sequence: saturated(index + 1),
        timestamp,
        record,
        dropped_count: saturated(dropped),
        earliest_retained_sequence: saturated(dropped + 1),
    }
}

impl LogView {
    /// A log in which nothing was recorded yet.
    pub open spec fn empty(capacity: nat) -> LogView {
        LogView { capacity, history: Seq::empty(), closed: false }
    }

    /// Whether the capacity is in the supported range, and each event carries the numbers that
    /// its place in the history gives it.
    pub open spec fn valid(self) -> bool {
        &&& MIN_DECISION_BUFFER_CAPACITY <= self.capacity <= MAX_DECISION_BUFFER_CAPACITY
        &&& forall|i: int|
            0 <= i < self.history.len() ==> #[trigger] self.history[i] == numbered_event(
                i as nat,
                self.capacity,
                self.history[i].record,
                self.history[i].timestamp,
            )
    }

    /// How many events were discarded because the buffer wrapped.
    pub open spec fn discarded(self) -> nat {
        (self.history.len() - retained_count(self.history.len(), self.capacity)) as nat
    }

    /// The events that are still retained, the oldest first.
    pub open spec fn retained(self) -> Seq<EventView> {
        self.history.skip(self.discarded() as int)
    }

    /// Next sequence that will be assigned.
    pub open spec fn next_sequence(self) -> u64 {
        saturated(self.history.len() + 1)
    }

    /// The count of discarded events that is reported.
    pub open spec fn dropped_count(self) -> u64 {
        saturated(self.discarded())
    }

    /// Oldest retained sequence, or 0 when nothing is retained.
    pub open spec fn earliest_retained_sequence(self) -> u64 {
        if self.retained().len() == 0 {
            0
        } else {
            self.retained()[0].sequence
        }
    }

    /// The log after one more decision.
    pub open spec fn recorded(self, record: RecordView, timestamp: Seq<char>) -> LogView {
        LogView {
            history: self.history.push(
                numbered_event(self.history.len(), self.capacity, record, timestamp),
            ),
            ..self
        }
    }

    /// The log once it was closed.
    pub open spec fn closing(self) -> LogView {
        LogView { closed: true, ..self }
    }

    /// What a snapshot after the cursor holds.
    pub open spec fn snapshot(self, after: u64) -> SnapshotView {
        SnapshotView {
            events: after_cursor(self.retained(), after),
            dropped_count: self.dropped_count(),
            earliest_retained_sequence: self.earliest_retained_sequence(),
            next_sequence: self.next_sequence(),
            closed: self.closed,
        }
    }

    /// What a follower with that cursor is told; `None` while it has to wait.
    pub open spec fn follow(self, after: u64) -> Option<FollowView> {
        let events = after_cursor(self.retained(), after);
        if events.len() > 0 {
            Some(
                FollowView::Events {
                    events,
                    closed: self.closed,
                    dropped_count: self.dropped_count(),
                    earliest_retained_sequence: self.earliest_retained_sequence(),
                },
            )
        } else if self.closed {
            Some(
                FollowView::Closed {
                    dropped_count: self.dropped_count(),
                    earliest_retained_sequence: self.earliest_retained_sequence(),
                },
            )
        } else {
            None
        }
    }
}

impl View for DecisionLog {
    type V = LogView;

    closed spec fn view(&self) -> LogView {
        LogView { capacity: self.capacity as nat, history: self.history@, closed: self.closed }
    }
}

impl View for DecisionSnapshot {
    type V = SnapshotView;

    open spec fn view(&self) -> SnapshotView {
        SnapshotView {
            events: event_views(self.events@),
            dropped_count: self.dropped_count,
            earliest_retained_sequence: self.earliest_retained_sequence,
            next_sequence: self.next_sequence,
            closed: self.closed,
        }
    }
}

impl View for FollowOutcome {
    type V = FollowView;

    open spec fn view(&self) -> FollowView {
        match self {
            FollowOutcome::Events {
                events,
                closed,
                dropped_count,
                earliest_retained_sequence,
            } => FollowView::Events {
                events: event_views(events@),
                closed: *closed,
                dropped_count: *dropped_count,
                earliest_retained_sequence: *earliest_retained_sequence,
            },
            FollowOutcome::Closed {
                dropped_count,
                earliest_retained_sequence,
            } => FollowView::Closed {
                dropped_count: *dropped_count,
                earliest_retained_sequence: *earliest_retained_sequence,
            },
        }
    }
}

impl DecisionLog {
    /// Whether the buffer and the counters are those of the history.
    pub closed spec fn well_formed(&self) -> bool {
        &&& self@.valid()
        &&& event_views(self.events@) == self@.retained()
        &&& self.next_sequence == self@.next_sequence()
        &&& self.dropped_count == self@.dropped_count()
        &&& self.earliest_retained_sequence == self@.earliest_retained_sequence()
    }

    /// Create a log with the default capacity.
    pub fn new() -> (log: Self)
        ensures
            log.well_formed(),
            log@ == LogView::empty(DEFAULT_DECISION_BUFFER_CAPACITY as nat),
    {
        Self::with_capacity(DEFAULT_DECISION_BUFFER_CAPACITY)
    }

    /// Create a log with a clamped capacity.
    pub fn with_capacity(capacity: usize) -> (log: Self)
        ensures
            log.well_formed(),
            log@ == LogView::empty(
                types::closest_in_range(
                    capacity as int,
                    MIN_DECISION_BUFFER_CAPACITY as int,
                    MAX_DECISION_BUFFER_CAPACITY as int,
                ) as nat,
            ),
    {
        let capacity: usize = clamp_decision_buffer_capacity(capacity);
        let log = DecisionLog {
            events: VecDeque::with_capacity(capacity),
            next_sequence: 1,
            dropped_count: 0,
            earliest_retained_sequence: 0,
            closed: false,
            capacity,
            history: Ghost(Seq::empty()),
        };
        assert(event_views(log.events@) =~= log@.retained());
        log
    }

    /// Configured capacity after clamping.
    pub fn capacity(&self) -> (capacity: usize)
        ensures
            capacity == self@.capacity,
    {
        self.capacity
    }

    /// Append a decision, with the present moment as its timestamp. Returns the recorded event.
    ///
    /// When the buffer is full the oldest event is dropped and
    /// `dropped_count` increases. Callers observe the wrap through
    /// [`NetworkDecisionEvent::dropped_count`].
    pub fn emit(&mut self, record: DecisionRecord) -> (event: NetworkDecisionEvent)
        requires
            old(self).well_formed(),
        ensures
            final(self).well_formed(),
            final(self)@ == old(self)@.recorded(record@, event.timestamp@),
            event@ == final(self)@.history.last(),
            timestamp::is_clock_text(event.timestamp@),
    {
        self.emit_at(record, utc_timestamp())
    }

    /// Append a decision that was taken at `timestamp`. Returns the recorded event.
    pub fn emit_at(&mut self, record: DecisionRecord, timestamp: String) -> (event:
        NetworkDecisionEvent)
        requires
            old(self).well_formed(),
        ensures
            final(self).well_formed(),
            final(self)@ == old(self)@.recorded(record@, timestamp@),
            event@ == final(self)@.history.last(),
    {
        let ghost before: LogView = self@;
        let ghost recorded: nat = before.history.len();
        let ghost buffered: Seq<EventView> = event_views(self.events@);
        assert(buffered.len() == retained_count(recorded, before.capacity));
        assert forall|i: int| 0 <= i < buffered.len() implies #[trigger] buffered[i]
            == before.history[before.discarded() + i] by {}
        if self.events.len() == self.capacity {
            self.events.pop_front();
            self.dropped_count = self.dropped_count.saturating_add(1);
        }
        let sequence: u64 = self.next_sequence;
        self.next_sequence = self.next_sequence.saturating_add(1);
        let earliest: u64 = if self.events.len() == 0 {
            sequence
        } else {
            self.events[0].sequence
        };
        self.earliest_retained_sequence = earliest;
        let event = NetworkDecisionEvent {
            sequence,
            timestamp,
            phase: record.phase,
            action: record.action,
            reason: record.reason,
            destination_host: record.destination_host,
            destination_ip: record.destination_ip,
            destination_port: record.destination_port,
            transport: record.transport,
            protocol: record.protocol,
            sni: record.sni,
            http_authority: record.http_authority,
            correlation_id: record.correlation_id,
            matched_rule: record.matched_rule,
            dropped_count: self.dropped_count,
            earliest_retained_sequence: earliest,
        };
        let ghost dropped: nat = (recorded + 1 - retained_count(
            recorded + 1,
            before.capacity,
        )) as nat;
        let ghost kept: Seq<EventView> = event_views(self.events@);
        proof {
            assert forall|i: int| 0 <= i < kept.len() implies #[trigger] kept[i]
                == before.history[dropped + i] by {
                assert(kept[i] == self.events@[i]@);
                if dropped > before.discarded() {
                    assert(kept[i] == buffered[i + 1]);
                } else {
                    assert(kept[i] == buffered[i]);
                }
            }
            if kept.len() > 0 {
                assert(kept[0].sequence == saturated(dropped + 1));
            }
            assert(event@ =~= numbered_event(recorded, before.capacity, record@, timestamp@));
        }
        self.events.push_back(event.clone());
        proof {
            self.history@ = self.history@.push(event@);
            assert(event_views(self.events@) =~= kept.push(event@));
        }
        assert(event_views(self.events@) =~= self@.retained());
        event
    }

    /// The retained events with `sequence > after`.
    fn events_after(&self, after: u64) -> (found: Vec<NetworkDecisionEvent>)
        requires
            self.well_formed(),
        ensures
            event_views(found@) == after_cursor(self@.retained(), after),
    {
        let ghost buffered: Seq<EventView> = event_views(self.events@);
        let mut found: Vec<NetworkDecisionEvent> = Vec::new();
        let mut index: usize = 0;
        assert(event_views(found@) =~= after_cursor(buffered.take(0), after)) by {
            reveal(Seq::filter);
        }
        while index < self.events.len()
            invariant
                index <= self.events.len(),
                buffered == event_views(self.events@),
                event_views(found@) == after_cursor(buffered.take(index as int), after),
            decreases self.events.len() - index,
        {
            let ghost found_before: Seq<NetworkDecisionEvent> = found@;
            proof {
                reveal(Seq::filter);
                assert(buffered.take(index + 1).drop_last() =~= buffered.take(index as int));
                assert(buffered.take(index + 1).last() == self.events@[index as int]@);
            }
            if self.events[index].sequence > after {
                found.push(self.events[index].clone());
                assert(event_views(found@) =~= event_views(found_before).push(
                    self.events@[index as int]@,
                ));
            }
            index = index + 1;
        }
        assert(buffered.take(index as int) =~= buffered);
        found
    }

    /// Copy events with `sequence > after`.
    pub fn snapshot_after(&self, after: u64) -> (snapshot: DecisionSnapshot)
        requires
            self.well_formed(),
        ensures
            snapshot@ == self@.snapshot(after),
    {
        DecisionSnapshot {
            events: self.events_after(after),
            dropped_count: self.dropped_count,
            earliest_retained_sequence: self.earliest_retained_sequence,
            next_sequence: self.next_sequence,
            closed: self.closed,
        }
    }

    /// What a follower with the cursor `after` is told once events after it exist or the log is
    /// closed; `None` as long as it has to wait.
    pub fn wait_after(&self, after: u64) -> (outcome: Option<FollowOutcome>)
        requires
            self.well_formed(),
        ensures
            match outcome {
                Some(outcome) => self@.follow(after) == Some(outcome@),
                None => self@.follow(after) is None,
            },
    {
        let events: Vec<NetworkDecisionEvent> = self.events_after(after);
        assert(event_views(events@).len() == events@.len());
        if events.len() > 0 {
            return Some(
                FollowOutcome::Events {
                    events,
                    closed: self.closed,
                    dropped_count: self.dropped_count,
                    earliest_retained_sequence: self.earliest_retained_sequence,
                },
            );
        }
        if self.closed {
            return Some(
                FollowOutcome::Closed {
                    dropped_count: self.dropped_count,
                    earliest_retained_sequence: self.earliest_retained_sequence,
                },
            );
        }
        None
    }

    /// Mark the log closed. Further emits are still recorded, so that a late snapshot can
    /// drain them.
    pub fn close(&mut self)
        requires
            old(self).well_formed(),
        ensures
            final(self).well_formed(),
            final(self)@ == old(self)@.closing(),
    {
        self.closed = true;
        assert(self@.retained() == old(self)@.retained());
    }

    /// Whether [`Self::close`] has been called.
    pub fn is_closed(&self) -> (closed: bool)
        ensures
            closed == self@.closed,
    {
        self.closed
    }
}

/// The values of every log that the operations produce are valid.
pub proof fn law_well_formed_log_is_valid(log: DecisionLog)
    requires
        log.well_formed(),
    ensures
        log@.valid(),
{
}

impl Default for DecisionLog {
    fn default() -> (log: Self)
        ensures
            log.well_formed(),
            log@ == LogView::empty(DEFAULT_DECISION_BUFFER_CAPACITY as nat),
    {
        Self::new()
    }
}

impl Clone for DecisionSnapshot {
    fn clone(&self) -> (copy: Self)
        ensures
            copy@ == self@,
    {
        let events: Vec<NetworkDecisionEvent> = self.events.clone();
        assert(event_views(events@) =~= event_views(self.events@));
        DecisionSnapshot {
            events,
            dropped_count: self.dropped_count,
            earliest_retained_sequence: self.earliest_retained_sequence,
            next_sequence: self.next_sequence,
            closed: self.closed,
        }
    }
}

impl Clone for FollowOutcome {
    fn clone(&self) -> (copy: Self)
        ensures
            copy@ == self@,
    {
        match self {
            FollowOutcome::Events {
                events,
                closed,
                dropped_count,
                earliest_retained_sequence,
            } => {
                let copied: Vec<NetworkDecisionEvent> = events.clone();
                assert(event_views(copied@) =~= event_views(events@));
                FollowOutcome::Events {
                    events: copied,
                    closed: *closed,
                    dropped_count: *dropped_count,
                    earliest_retained_sequence: *earliest_retained_sequence,
                }
            },
            FollowOutcome::Closed {
                dropped_count,
                earliest_retained_sequence,
            } => FollowOutcome::Closed {
                dropped_count: *dropped_count,
                earliest_retained_sequence: *earliest_retained_sequence,
            },
        }
    }
}

} // verus!
