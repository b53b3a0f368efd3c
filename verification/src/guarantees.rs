//! What the readers of a decision log can rely on.

use vstd::prelude::*;

use crate::log::{
    self, law_well_formed_log_is_valid, DecisionLog, DecisionSnapshot, FollowOutcome, FollowView,
    LogView,
};
use crate::record::DecisionRecord;
use crate::text;
use crate::timestamp;
use crate::types::{
    EventView, NetworkDecisionEvent, RecordView, MAX_DECISION_BUFFER_CAPACITY,
    MIN_DECISION_BUFFER_CAPACITY,
};

verus! {

/// Whether `newer` is `older` with any number of decisions recorded since.
pub open spec fn extends(newer: LogView, older: LogView) -> bool {
    &&& newer.capacity == older.capacity
    &&& older.history.is_prefix_of(newer.history)
}

/// The larger of two counts.
pub open spec fn larger(left: nat, right: nat) -> nat {
    if left < right {
        right
    } else {
        left
    }
}

/// Events of which the first `seen` lie at or before the cursor, and the others after it.
proof fn lemma_cursor_splits(events: Seq<EventView>, after: u64, seen: int)
    requires
        0 <= seen <= events.len(),
        forall|i: int| 0 <= i < seen ==> (#[trigger] events[i]).sequence <= after,
        forall|i: int| seen <= i < events.len() ==> (#[trigger] events[i]).sequence > after,
    ensures
        log::after_cursor(events, after) == events.skip(seen),
    decreases events.len(),
{
    reveal(Seq::filter);
    if events.len() > 0 {
        let rest = events.drop_last();
        if seen < events.len() {
            lemma_cursor_splits(rest, after, seen);
            assert(events.skip(seen) =~= rest.skip(seen).push(events.last()));
        } else {
            lemma_cursor_splits(rest, after, seen - 1);
            assert(events.skip(seen) =~= rest.skip(seen - 1));
        }
    } else {
        assert(events.skip(seen) =~= events);
    }
}

/// A new log is valid, and recording and closing keep it so.
pub proof fn law_operations_keep_a_log_valid(
    capacity: nat,
    log: LogView,
    record: RecordView,
    timestamp: Seq<char>,
)
    requires
        MIN_DECISION_BUFFER_CAPACITY <= capacity <= MAX_DECISION_BUFFER_CAPACITY,
        log.valid(),
    ensures
        LogView::empty(capacity).valid(),
        log.recorded(record, timestamp).valid(),
        log.closing().valid(),
{
}

/// Sequences start at 1 and are contiguous, in the order of recording, as long as they fit
/// in 64 bits.
pub proof fn law_sequences_are_contiguous(log: LogView)
    requires
        log.valid(),
        log.history.len() <= u64::MAX,
    ensures
        forall|i: int|
            0 <= i < log.history.len() ==> (#[trigger] log.history[i]).sequence == i + 1,
        forall|i: int|
            0 <= i < log.retained().len() ==> (#[trigger] log.retained()[i]).sequence
                == log.earliest_retained_sequence() + i,
        log.history.len() < u64::MAX ==> log.next_sequence() == log.history.len() + 1,
        0 < log.history.len() < u64::MAX ==> log.next_sequence() == log.retained().last().sequence
            + 1,
{
}

/// A later event never has a smaller sequence than an earlier one.
pub proof fn law_sequences_never_decrease(log: LogView, i: int, j: int)
    requires
        log.valid(),
        0 <= i <= j < log.history.len(),
    ensures
        log.history[i].sequence <= log.history[j].sequence,
        log.history[j].sequence <= log.next_sequence(),
{
}

/// The buffer holds the newest events, up to its capacity, and discards only older ones.
pub proof fn law_newest_events_are_retained(log: LogView)
    requires
        log.valid(),
    ensures
        log.retained().len() <= log.capacity,
        log.history.len() <= log.capacity ==> log.retained() == log.history,
        log.history.len() > log.capacity ==> log.retained().len() == log.capacity,
        log.retained().is_suffix_of(log.history),
{
    assert(log.history.len() <= log.capacity ==> log.retained() =~= log.history);
}

/// Overflow is never silent: what was recorded is either retained or counted as dropped, and
/// the newest event carries the same counters as a snapshot.
pub proof fn law_every_discarded_event_is_counted(log: LogView, after: u64)
    requires
        log.valid(),
        log.discarded() < u64::MAX,
    ensures
        log.dropped_count() + log.retained().len() == log.history.len(),
        log.snapshot(after).dropped_count == log.dropped_count(),
        log.history.len() > 0 ==> {
            &&& log.retained().last().dropped_count == log.dropped_count()
            &&& log.retained().last().earliest_retained_sequence
                == log.earliest_retained_sequence()
            &&& log.earliest_retained_sequence() == log.dropped_count() + 1
        },
{
}

/// Recording a decision discards the oldest event exactly when the buffer is full.
pub proof fn law_full_buffer_drops_its_oldest_event(
    log: LogView,
    record: RecordView,
    timestamp: Seq<char>,
)
    requires
        log.valid(),
    ensures
        ({
            let after = log.recorded(record, timestamp);
            let event = log::numbered_event(log.history.len(), log.capacity, record, timestamp);
            if log.retained().len() == log.capacity {
                &&& after.retained() == log.retained().drop_first().push(event)
                &&& after.discarded() == log.discarded() + 1
            } else {
                &&& after.retained() == log.retained().push(event)
                &&& after.discarded() == log.discarded()
            }
        }),
{
    let after = log.recorded(record, timestamp);
    let event = log::numbered_event(log.history.len(), log.capacity, record, timestamp);
    if log.retained().len() == log.capacity {
        assert(after.retained() =~= log.retained().drop_first().push(event));
    } else {
        assert(after.retained() =~= log.retained().push(event));
    }
}

/// A snapshot holds the retained events whose sequence is greater than the cursor, all of
/// them and no others.
pub proof fn law_snapshot_holds_the_events_after_the_cursor(
    log: LogView,
    after: u64,
    event: EventView,
)
    ensures
        log.snapshot(after).events.contains(event) <==> log.retained().contains(event)
            && event.sequence > after,
{
    let pred = |e: EventView| e.sequence > after;
    let events = log.snapshot(after).events;
    if events.contains(event) {
        log.retained().lemma_filter_contains_rev(pred, event);
        let i = choose|i: int| 0 <= i < events.len() && events[i] == event;
        log.retained().lemma_filter_pred(pred, i);
    }
    if log.retained().contains(event) && event.sequence > after {
        let i = choose|i: int| 0 <= i < log.retained().len() && log.retained()[i] == event;
        log.retained().lemma_filter_contains(pred, i);
    }
}

/// A cursor of 0 starts at the oldest retained event.
pub proof fn law_replay_starts_at_the_oldest_event(log: LogView)
    requires
        log.valid(),
    ensures
        log.snapshot(0).events == log.retained(),
{
    lemma_cursor_splits(log.retained(), 0, 0);
    assert(log.retained().skip(0) =~= log.retained());
}

/// A snapshot starts right after the cursor, or at the oldest retained event where what
/// followed the cursor was discarded, and runs without a gap to the newest event.
pub proof fn law_snapshot_is_the_rest_of_the_history(log: LogView, after: u64)
    requires
        log.valid(),
        log.history.len() <= u64::MAX,
    ensures
        log.snapshot(after).events == if after <= log.history.len() {
            log.history.skip(larger(after as nat, log.discarded()) as int)
        } else {
            Seq::empty()
        },
{
    let seen: int = if after >= log.history.len() {
        log.retained().len() as int
    } else if after >= log.discarded() {
        after - log.discarded()
    } else {
        0
    };
    lemma_cursor_splits(log.retained(), after, seen);
    if after <= log.history.len() {
        assert(log.retained().skip(seen) =~= log.history.skip(
            larger(after as nat, log.discarded()) as int,
        ));
    } else {
        assert(log.retained().skip(seen) =~= Seq::empty());
    }
}

/// A reader that resumes from the last sequence of its snapshot sees every event once, in
/// order, as long as none of the new ones was discarded meanwhile.
pub proof fn law_resuming_neither_repeats_nor_misses(older: LogView, newer: LogView, after: u64)
    requires
        older.valid(),
        newer.valid(),
        extends(newer, older),
        newer.history.len() <= u64::MAX,
        older.snapshot(after).events.len() > 0,
        newer.discarded() <= older.history.len(),
    ensures
        ({
            let seen = older.snapshot(after).events;
            seen + newer.snapshot(seen.last().sequence).events == newer.history.skip(
                larger(after as nat, older.discarded()) as int,
            )
        }),
{
    let seen = older.snapshot(after).events;
    law_snapshot_is_the_rest_of_the_history(older, after);
    assert(seen.last() == older.history.last());
    assert(seen.last().sequence == older.history.len());
    law_snapshot_is_the_rest_of_the_history(newer, seen.last().sequence);
    assert(seen + newer.snapshot(seen.last().sequence).events =~= newer.history.skip(
        larger(after as nat, older.discarded()) as int,
    ));
}

/// A reader that has seen the events up to its cursor can tell from the oldest retained
/// sequence how many events it missed.
pub proof fn law_missed_events_are_visible(log: LogView, after: u64)
    requires
        log.valid(),
        log.history.len() > 0,
        log.discarded() < u64::MAX,
        after <= log.history.len(),
    ensures
        ({
            let missed = if log.discarded() > after {
                log.discarded() - after
            } else {
                0
            };
            missed == if log.earliest_retained_sequence() > after {
                log.earliest_retained_sequence() - after - 1
            } else {
                0
            }
        }),
{
}

/// A follower waits exactly while the log is open and holds nothing after its cursor.
pub proof fn law_follower_waits_only_for_news(log: LogView, after: u64)
    ensures
        log.follow(after) is None <==> !log.closed && log.snapshot(after).events.len() == 0,
        log.follow(after) matches Some(FollowView::Events { events, closed, .. }) ==> events
            == log.snapshot(after).events && closed == log.closed,
{
}

/// A new event is handed to every follower whose cursor lies before it.
pub proof fn law_new_event_reaches_followers(
    log: LogView,
    record: RecordView,
    timestamp: Seq<char>,
    after: u64,
)
    requires
        log.valid(),
        after < log.next_sequence(),
    ensures
        ({
            let event = log::numbered_event(log.history.len(), log.capacity, record, timestamp);
            log.recorded(record, timestamp).follow(after) matches Some(
                FollowView::Events { events, .. },
            ) && events.last() == event
        }),
{
    let newer = log.recorded(record, timestamp);
    let event = log::numbered_event(log.history.len(), log.capacity, record, timestamp);
    assert(newer.retained().last() == event);
    reveal(Seq::filter);
}

/// Closing is final: a closed log answers every follower at once, with the events that are
/// left or, where none are, with the end. Closing again changes nothing.
pub proof fn law_closing_is_final(log: LogView, after: u64)
    ensures
        log.closing().follow(after) is Some,
        log.snapshot(after).events.len() == 0 ==> log.closing().follow(after) == Some(
            FollowView::Closed {
                dropped_count: log.dropped_count(),
                earliest_retained_sequence: log.earliest_retained_sequence(),
            },
        ),
        log.closing().closing() == log.closing(),
        log.closing().snapshot(after).events == log.snapshot(after).events,
{
    assert(log.closing().retained() == log.retained());
}

/// A closed log stays closed, and still records what is emitted late.
pub proof fn law_late_decisions_are_recorded(log: LogView, record: RecordView, timestamp: Seq<char>)
    ensures
        log.closing().recorded(record, timestamp) == log.recorded(record, timestamp).closing(),
        log.recorded(record, timestamp).closed == log.closed,
{
}

/// A log of a given capacity starts empty and open. A capacity of 16 to 100,000 events is kept
/// as it is, and any other becomes the nearer of the two.
pub proof fn law_new_log_is_empty(requested: usize, log: DecisionLog, capacity: usize)
    requires
        call_ensures(DecisionLog::with_capacity, (requested,), log),
        call_ensures(DecisionLog::capacity, (&log,), capacity),
    ensures
        log.well_formed(),
        log@.history.len() == 0,
        !log@.closed,
        16 <= capacity <= 100_000,
        16 <= requested <= 100_000 ==> capacity == requested,
        requested < 16 ==> capacity == 16,
        requested > 100_000 ==> capacity == 100_000,
        capacity == log@.capacity,
{
}

/// A log that is made without a capacity starts empty and open, and retains 4,096 events.
pub proof fn law_default_log_is_empty(log: DecisionLog, by_default: DecisionLog)
    requires
        call_ensures(DecisionLog::new, (), log),
        call_ensures(DecisionLog::default, (), by_default),
    ensures
        log.well_formed(),
        log@.history.len() == 0,
        !log@.closed,
        log@.capacity == 4_096,
        by_default.well_formed(),
        by_default@ == log@,
{
}

/// Recording a decision appends one event to the history and changes nothing else. The event
/// says what the enforcement site said, field by field, and carries the next sequence and the
/// counters of the buffer as it then is.
pub proof fn law_recording_appends_the_decision(
    log: &mut DecisionLog,
    record: DecisionRecord,
    timestamp: String,
    event: NetworkDecisionEvent,
)
    requires
        old(log).well_formed(),
        call_ensures(DecisionLog::emit_at, (log, record, timestamp), event),
    ensures
        final(log).well_formed(),
        final(log)@.history == old(log)@.history.push(event@),
        final(log)@.capacity == old(log)@.capacity,
        final(log)@.closed == old(log)@.closed,
        event.timestamp@ == timestamp@,
        event.phase == record.phase,
        event.action == record.action,
        event.reason@ == record.reason@,
        text::optional_text(event.destination_host) == text::optional_text(record.destination_host),
        event.destination_ip == record.destination_ip,
        event.destination_port == record.destination_port,
        event.transport@ == record.transport@,
        text::optional_text(event.protocol) == text::optional_text(record.protocol),
        text::optional_text(event.sni) == text::optional_text(record.sni),
        text::optional_text(event.http_authority) == text::optional_text(record.http_authority),
        text::optional_text(event.correlation_id) == text::optional_text(record.correlation_id),
        text::optional_text(event.matched_rule) == text::optional_text(record.matched_rule),
        ({
            let recorded = old(log)@.history.len() + 1;
            let capacity = old(log)@.capacity;
            let dropped = if recorded > capacity {
                recorded - capacity
            } else {
                0
            };
            &&& event.sequence == if recorded > u64::MAX {
                u64::MAX as int
            } else {
                recorded as int
            }
            &&& event.dropped_count == if dropped > u64::MAX {
                u64::MAX as int
            } else {
                dropped
            }
            &&& event.earliest_retained_sequence == if dropped + 1 > u64::MAX {
                u64::MAX as int
            } else {
                dropped + 1
            }
        }),
{
}

/// A decision that is recorded now is recorded as at any given moment, at a time that the
/// clock showed.
pub proof fn law_recording_now_is_recording_at_the_present(
    log: &mut DecisionLog,
    other: &mut DecisionLog,
    record: DecisionRecord,
    timestamp: String,
    event: NetworkDecisionEvent,
    same: NetworkDecisionEvent,
)
    requires
        old(log).well_formed(),
        old(other).well_formed(),
        old(log)@ == old(other)@,
        call_ensures(DecisionLog::emit, (log, record), event),
        call_ensures(DecisionLog::emit_at, (other, record, timestamp), same),
        timestamp@ == event.timestamp@,
    ensures
        final(log).well_formed(),
        final(log)@ == final(other)@,
        event@ == same@,
        timestamp::is_clock_text(event.timestamp@),
{
}

/// What the numbers of a snapshot say does not depend on its cursor: what was ever recorded
/// is retained or counted as dropped, the oldest retained sequence is the one after those that
/// were dropped, or 0 where nothing was recorded, and the next sequence is the one after all.
pub proof fn law_snapshot_counts_what_was_recorded(
    log: &DecisionLog,
    after: u64,
    snapshot: DecisionSnapshot,
)
    requires
        log.well_formed(),
        call_ensures(DecisionLog::snapshot_after, (log, after), snapshot),
    ensures
        ({
            let recorded = log@.history.len();
            let capacity = log@.capacity;
            let dropped = if recorded > capacity {
                recorded - capacity
            } else {
                0
            };
            &&& snapshot.dropped_count == if dropped > u64::MAX {
                u64::MAX as int
            } else {
                dropped
            }
            &&& snapshot.earliest_retained_sequence == if recorded == 0 {
                0
            } else if dropped + 1 > u64::MAX {
                u64::MAX as int
            } else {
                dropped + 1
            }
            &&& snapshot.next_sequence == if recorded + 1 > u64::MAX {
                u64::MAX as int
            } else {
                (recorded + 1) as int
            }
            &&& snapshot.closed == log@.closed
        }),
{
    law_well_formed_log_is_valid(*log);
}

/// A snapshot holds the newest events of the history: as many as were recorded after the
/// cursor, and at most as many as the buffer retains.
pub proof fn law_snapshot_replays_the_newest_events(
    log: &DecisionLog,
    after: u64,
    snapshot: DecisionSnapshot,
)
    requires
        log.well_formed(),
        call_ensures(DecisionLog::snapshot_after, (log, after), snapshot),
        log@.history.len() <= u64::MAX,
    ensures
        ({
            let recorded = log@.history.len();
            let held = snapshot.events@.len();
            &&& held == if after >= recorded {
                0
            } else if recorded - after < log@.capacity {
                recorded - after
            } else {
                log@.capacity as int
            }
            &&& forall|i: int|
                0 <= i < held ==> {
                    &&& (#[trigger] snapshot.events@[i])@ == log@.history[recorded - held + i]
                    &&& snapshot.events@[i].sequence == recorded - held + i + 1
                }
        }),
{
    law_well_formed_log_is_valid(*log);
    law_snapshot_is_the_rest_of_the_history(log@, after);
    law_sequences_are_contiguous(log@);
    let views = log::event_views(snapshot.events@);
    assert(views == snapshot@.events);
    assert(views.len() == snapshot.events@.len());
    assert forall|i: int| 0 <= i < snapshot.events@.len() implies {
        &&& (#[trigger] snapshot.events@[i])@ == log@.history[log@.history.len()
            - snapshot.events@.len() + i]
        &&& snapshot.events@[i].sequence == log@.history.len() - snapshot.events@.len() + i + 1
    } by {
        assert(views[i] == snapshot.events@[i]@);
    }
}

/// Two snapshots of one log differ only in their events, and that with the later cursor holds
/// the end of what the other holds.
pub proof fn law_cursor_decides_only_where_a_snapshot_starts(
    log: &DecisionLog,
    early: u64,
    late: u64,
    longer: DecisionSnapshot,
    shorter: DecisionSnapshot,
)
    requires
        log.well_formed(),
        early <= late,
        call_ensures(DecisionLog::snapshot_after, (log, early), longer),
        call_ensures(DecisionLog::snapshot_after, (log, late), shorter),
        log@.history.len() <= u64::MAX,
    ensures
        longer.dropped_count == shorter.dropped_count,
        longer.earliest_retained_sequence == shorter.earliest_retained_sequence,
        longer.next_sequence == shorter.next_sequence,
        longer.closed == shorter.closed,
        shorter.events@.len() <= longer.events@.len(),
        forall|i: int|
            0 <= i < shorter.events@.len() ==> (#[trigger] shorter.events@[i])@
                == longer.events@[longer.events@.len() - shorter.events@.len() + i]@,
{
    law_snapshot_counts_what_was_recorded(log, early, longer);
    law_snapshot_counts_what_was_recorded(log, late, shorter);
    law_snapshot_replays_the_newest_events(log, early, longer);
    law_snapshot_replays_the_newest_events(log, late, shorter);
}

/// A snapshot from the oldest event on holds as many events as its counters say are retained.
pub proof fn law_snapshot_agrees_with_its_counters(log: &DecisionLog, snapshot: DecisionSnapshot)
    requires
        log.well_formed(),
        call_ensures(DecisionLog::snapshot_after, (log, 0), snapshot),
        log@.history.len() < u64::MAX,
    ensures
        snapshot.dropped_count + snapshot.events@.len() == snapshot.next_sequence - 1,
        snapshot.events@.len() > 0 ==> {
            &&& snapshot.events@[0].sequence == snapshot.earliest_retained_sequence
            &&& snapshot.events@.last().sequence == snapshot.next_sequence - 1
            &&& snapshot.events@.last().dropped_count == snapshot.dropped_count
            &&& snapshot.events@.last().earliest_retained_sequence
                == snapshot.earliest_retained_sequence
        },
        snapshot.events@.len() == 0 ==> snapshot.earliest_retained_sequence == 0,
{
    law_well_formed_log_is_valid(*log);
    law_snapshot_counts_what_was_recorded(log, 0, snapshot);
    law_snapshot_replays_the_newest_events(log, 0, snapshot);
}

/// What is recorded can be read back: the snapshot after the sequence before an event holds
/// that event, and it alone, once it was recorded.
pub proof fn law_recorded_event_is_read_back(
    log: &mut DecisionLog,
    record: DecisionRecord,
    event: NetworkDecisionEvent,
    newer: &DecisionLog,
    snapshot: DecisionSnapshot,
)
    requires
        old(log).well_formed(),
        old(log)@.history.len() < u64::MAX,
        call_ensures(DecisionLog::emit, (log, record), event),
        *newer == *final(log),
        call_ensures(
            DecisionLog::snapshot_after,
            (newer, (event.sequence - 1) as u64),
            snapshot,
        ),
    ensures
        snapshot.events@.len() == 1,
        snapshot.events@[0]@ == event@,
{
    law_well_formed_log_is_valid(*newer);
    law_snapshot_replays_the_newest_events(newer, (event.sequence - 1) as u64, snapshot);
}

/// A follower is told what a snapshot taken at the same moment holds: its events and its
/// counters, or the end where there are no events and the log has closed. It waits only where
/// neither is the case.
pub proof fn law_follower_is_told_what_a_snapshot_holds(
    log: &DecisionLog,
    after: u64,
    outcome: Option<FollowOutcome>,
    snapshot: DecisionSnapshot,
)
    requires
        log.well_formed(),
        call_ensures(DecisionLog::wait_after, (log, after), outcome),
        call_ensures(DecisionLog::snapshot_after, (log, after), snapshot),
    ensures
        match outcome {
            Some(
                FollowOutcome::Events { events, closed, dropped_count, earliest_retained_sequence },
            ) => {
                &&& events@.len() > 0
                &&& events@.len() == snapshot.events@.len()
                &&& forall|i: int|
                    0 <= i < events@.len() ==> (#[trigger] events@[i])@ == snapshot.events@[i]@
                &&& closed == snapshot.closed
                &&& dropped_count == snapshot.dropped_count
                &&& earliest_retained_sequence == snapshot.earliest_retained_sequence
            },
            Some(FollowOutcome::Closed { dropped_count, earliest_retained_sequence }) => {
                &&& snapshot.events@.len() == 0
                &&& snapshot.closed
                &&& dropped_count == snapshot.dropped_count
                &&& earliest_retained_sequence == snapshot.earliest_retained_sequence
            },
            None => snapshot.events@.len() == 0 && !snapshot.closed,
        },
{
    let held = log::event_views(snapshot.events@);
    assert(held.len() == snapshot.events@.len());
    if let Some(FollowOutcome::Events { events, .. }) = outcome {
        let told = log::event_views(events@);
        assert(told.len() == events@.len());
        assert(told == held);
        assert forall|i: int| 0 <= i < events@.len() implies (#[trigger] events@[i])@
            == snapshot.events@[i]@ by {
            assert(told[i] == events@[i]@);
            assert(held[i] == snapshot.events@[i]@);
        }
    }
}

/// A follower that is told anything is told how much was dropped: what was ever recorded is
/// either retained or in the count that it is handed, and the oldest retained sequence is the
/// one after those that were dropped.
pub proof fn law_follower_is_told_what_was_dropped(
    log: &DecisionLog,
    after: u64,
    outcome: FollowOutcome,
)
    requires
        log.well_formed(),
        call_ensures(DecisionLog::wait_after, (log, after), Some(outcome)),
        log@.history.len() < u64::MAX,
    ensures
        ({
            let recorded = log@.history.len();
            let retained = if recorded < log@.capacity {
                recorded
            } else {
                log@.capacity
            };
            match outcome {
                FollowOutcome::Events { closed, dropped_count, earliest_retained_sequence, .. } => {
                    &&& dropped_count + retained == recorded
                    &&& earliest_retained_sequence == dropped_count + 1
                    &&& closed == log@.closed
                },
                FollowOutcome::Closed { dropped_count, earliest_retained_sequence } => {
                    &&& dropped_count + retained == recorded
                    &&& earliest_retained_sequence == if recorded == 0 {
                        0
                    } else {
                        dropped_count + 1
                    }
                    &&& log@.closed
                },
            }
        }),
{
    law_well_formed_log_is_valid(*log);
    if let FollowOutcome::Events { events, .. } = outcome {
        assert(log::event_views(events@).len() == events@.len());
        if log@.history.len() == 0 {
            reveal(Seq::filter);
        }
    }
}

/// A follower is handed the newest events: as many as were recorded after its cursor, and at
/// most as many as the buffer retains. It is told the end exactly where there are none and the
/// log has closed, and waits exactly where there are none and the log is open.
pub proof fn law_follower_gets_the_newest_events(
    log: &DecisionLog,
    after: u64,
    outcome: Option<FollowOutcome>,
)
    requires
        log.well_formed(),
        call_ensures(DecisionLog::wait_after, (log, after), outcome),
        log@.history.len() <= u64::MAX,
    ensures
        outcome is None <==> after >= log@.history.len() && !log@.closed,
        outcome matches Some(FollowOutcome::Closed { .. }) <==> after >= log@.history.len()
            && log@.closed,
        outcome matches Some(FollowOutcome::Events { events, .. }) ==> {
            let recorded = log@.history.len();
            let held = events@.len();
            &&& held == if recorded - after < log@.capacity {
                recorded - after
            } else {
                log@.capacity as int
            }
            &&& forall|i: int|
                0 <= i < held ==> {
                    &&& (#[trigger] events@[i])@ == log@.history[recorded - held + i]
                    &&& events@[i].sequence == recorded - held + i + 1
                }
        },
{
    law_well_formed_log_is_valid(*log);
    law_snapshot_is_the_rest_of_the_history(log@, after);
    law_sequences_are_contiguous(log@);
    if let Some(FollowOutcome::Events { events, .. }) = outcome {
        let views = log::event_views(events@);
        assert(views.len() == events@.len());
        assert forall|i: int| 0 <= i < events@.len() implies {
            &&& (#[trigger] events@[i])@ == log@.history[log@.history.len() - events@.len() + i]
            &&& events@[i].sequence == log@.history.len() - events@.len() + i + 1
        } by {
            assert(views[i] == events@[i]@);
        }
    }
}

/// Closing a log closes it and leaves what was recorded as it is.
pub proof fn law_closing_keeps_what_was_recorded(
    log: &mut DecisionLog,
    closed: &DecisionLog,
    is_closed: bool,
)
    requires
        old(log).well_formed(),
        call_ensures(DecisionLog::close, (log,), ()),
        *closed == *final(log),
        call_ensures(DecisionLog::is_closed, (closed,), is_closed),
    ensures
        final(log).well_formed(),
        is_closed,
        final(log)@.closed,
        final(log)@.history == old(log)@.history,
        final(log)@.capacity == old(log)@.capacity,
{
}

/// A log says that it has closed exactly where it has.
pub proof fn law_closed_log_says_so(log: &DecisionLog, is_closed: bool)
    requires
        call_ensures(DecisionLog::is_closed, (log,), is_closed),
    ensures
        is_closed == log@.closed,
{
}

/// A copy of a snapshot or of an outcome says what the first one says.
pub proof fn law_copies_say_the_same(
    snapshot: &DecisionSnapshot,
    snapshot_copy: DecisionSnapshot,
    outcome: &FollowOutcome,
    outcome_copy: FollowOutcome,
)
    requires
        call_ensures(DecisionSnapshot::clone, (snapshot,), snapshot_copy),
        call_ensures(FollowOutcome::clone, (outcome,), outcome_copy),
    ensures
        snapshot_copy.events@.len() == snapshot.events@.len(),
        forall|i: int|
            0 <= i < snapshot.events@.len() ==> (#[trigger] snapshot_copy.events@[i])@
                == snapshot.events@[i]@,
        snapshot_copy.dropped_count == snapshot.dropped_count,
        snapshot_copy.earliest_retained_sequence == snapshot.earliest_retained_sequence,
        snapshot_copy.next_sequence == snapshot.next_sequence,
        snapshot_copy.closed == snapshot.closed,
        match (*outcome, outcome_copy) {
            (
                FollowOutcome::Events { events, closed, dropped_count, earliest_retained_sequence },
                FollowOutcome::Events {
                    events: copied,
                    closed: still_closed,
                    dropped_count: same_count,
                    earliest_retained_sequence: same_earliest,
                },
            ) => {
                &&& copied@.len() == events@.len()
                &&& forall|i: int|
                    0 <= i < events@.len() ==> (#[trigger] copied@[i])@ == events@[i]@
                &&& still_closed == closed
                &&& same_count == dropped_count
                &&& same_earliest == earliest_retained_sequence
            },
            (
                FollowOutcome::Closed { dropped_count, earliest_retained_sequence },
                FollowOutcome::Closed {
                    dropped_count: same_count,
                    earliest_retained_sequence: same_earliest,
                },
            ) => same_count == dropped_count && same_earliest == earliest_retained_sequence,
            _ => false,
        },
{
    let views = log::event_views(snapshot.events@);
    let copies = log::event_views(snapshot_copy.events@);
    assert(views == copies);
    assert(views.len() == snapshot.events@.len());
    assert(copies.len() == snapshot_copy.events@.len());
    assert forall|i: int| 0 <= i < snapshot.events@.len() implies (
    #[trigger] snapshot_copy.events@[i])@ == snapshot.events@[i]@ by {
        assert(views[i] == snapshot.events@[i]@);
        assert(copies[i] == snapshot_copy.events@[i]@);
    }
    if let FollowOutcome::Events { events, .. } = *outcome {
        if let FollowOutcome::Events { events: copied, .. } = outcome_copy {
            let told = log::event_views(events@);
            let again = log::event_views(copied@);
            assert(told == again);
            assert(told.len() == events@.len());
            assert(again.len() == copied@.len());
            assert forall|i: int| 0 <= i < events@.len() implies (#[trigger] copied@[i])@
                == events@[i]@ by {
                assert(told[i] == events@[i]@);
                assert(again[i] == copied@[i]@);
            }
        }
    }
}

/// Two events whose values are the same say the same in every field.
pub proof fn law_event_values_tell_every_field(
    left: NetworkDecisionEvent,
    right: NetworkDecisionEvent,
)
    requires
        left@ == right@,
    ensures
        left.sequence == right.sequence,
        left.timestamp@ == right.timestamp@,
        left.phase == right.phase,
        left.action == right.action,
        left.reason@ == right.reason@,
        text::optional_text(left.destination_host) == text::optional_text(right.destination_host),
        left.destination_ip == right.destination_ip,
        left.destination_port == right.destination_port,
        left.transport@ == right.transport@,
        text::optional_text(left.protocol) == text::optional_text(right.protocol),
        text::optional_text(left.sni) == text::optional_text(right.sni),
        text::optional_text(left.http_authority) == text::optional_text(right.http_authority),
        text::optional_text(left.correlation_id) == text::optional_text(right.correlation_id),
        text::optional_text(left.matched_rule) == text::optional_text(right.matched_rule),
        left.dropped_count == right.dropped_count,
        left.earliest_retained_sequence == right.earliest_retained_sequence,
{
}

} // verus!
