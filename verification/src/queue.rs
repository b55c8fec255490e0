//! The schedule queue and its three operations.

use crate::heap::{heap_new, heap_peek, heap_pop, heap_push, heap_remove, pending};
use crate::time::Timestamp;
use priority_queue::PriorityQueue;
use std::cmp::Reverse;
use vstd::prelude::*;

verus! {

/// The pending entries of a queue: each scheduled item with its due time.
pub type Schedule = Map<u64, Timestamp>;

/// `item` is scheduled in `entries`, and nothing in `entries` is due before it.
/// Items that share the earliest due time are all earliest.
pub open spec fn is_earliest(entries: Schedule, item: u64) -> bool {
    &&& entries.contains_key(item)
    &&& forall|other: u64| #[trigger]
        entries.contains_key(other) ==> entries[item]@ <= entries[other]@
}

/// `time` is strictly before every due time in `entries`. This holds of
/// every `time` where `entries` is empty.
pub open spec fn precedes_all(entries: Schedule, time: Timestamp) -> bool {
    forall|other: u64| #[trigger] entries.contains_key(other) ==> time@ < entries[other]@
}

/// The due time of `item` in `entries`, if it is scheduled there.
pub open spec fn due_time(entries: Schedule, item: u64) -> Option<Timestamp> {
    if entries.contains_key(item) {
        Some(entries[item])
    } else {
        None
    }
}

/// The entry of `item` in `entries`, if it is scheduled there: the item and
/// its due time.
pub open spec fn entry_of(entries: Schedule, item: u64) -> Option<(u64, Timestamp)> {
    if entries.contains_key(item) {
        Some((item, entries[item]))
    } else {
        None
    }
}

/// Some entry of `entries` is due at or before `now`.
pub open spec fn has_due(entries: Schedule, now: Timestamp) -> bool {
    exists|item: u64| #[trigger] entries.contains_key(item) && entries[item]@ <= now@
}

/// What [`ScheduleQueue::schedule`] reports.
#[derive(Clone, Copy, Debug, PartialEq, Eq)]
pub struct Scheduled {
    /// The due time that the item had before this call, if it was scheduled.
    pub previous: Option<Timestamp>,
    /// Whether a consumer that waits on the queue has to be woken: the new due
    /// time is earlier than anything the consumer can be waiting for.
    pub wake: bool,
}

/// What [`ScheduleQueue::next`] tells the consumer to do.
#[derive(Clone, Copy, Debug, PartialEq, Eq)]
pub enum Next {
    /// This item, with this due time, has fallen due and has left the queue.
    Due(u64, Timestamp),
    /// Nothing is due yet. The earliest entry falls due after this many
    /// nanoseconds: sleep that long, or until woken, and ask again.
    Wait(u128),
    /// Nothing is scheduled. Wait until woken, and ask again.
    Idle,
}

/// Whether `next`, asked at the time `now` on a queue that holds `before`,
/// may answer `answer` and leave `after` in the queue.
///
/// The answer is `Idle` exactly when nothing is scheduled, `Due` exactly when
/// something is due at or before `now`, and `Wait` otherwise. Only among
/// items that share the earliest due time is the choice open.
pub open spec fn next_allows(
    before: Schedule,
    now: Timestamp,
    answer: Next,
    after: Schedule,
) -> bool {
    match answer {
        Next::Due(item, time) => {
            &&& is_earliest(before, item)
            &&& before[item] == time
            &&& time@ <= now@
            &&& after == before.remove(item)
        },
        Next::Wait(nanos) => {
            &&& nanos > 0
            &&& exists|item: u64| #[trigger]
                is_earliest(before, item) && before[item]@ == now@ + nanos
            &&& after == before
        },
        Next::Idle => {
            &&& forall|item: u64| !#[trigger] before.contains_key(item)
            &&& after == before
        },
    }
}

/// Which of the three answers `next` gives is settled by what the queue
/// holds and by the time: `Due` exactly when something is due, `Idle` exactly
/// when nothing is scheduled, and `Wait` in between.
pub proof fn lemma_next_answer(before: Schedule, now: Timestamp, answer: Next, after: Schedule)
    requires
        next_allows(before, now, answer, after),
    ensures
        answer is Due <==> has_due(before, now),
        answer is Idle <==> before == Schedule::empty(),
{
    match answer {
        Next::Due(item, time) => {
            assert(before.contains_key(item) && before[item]@ <= now@);
        },
        Next::Wait(nanos) => {
            // Nothing is due before the earliest entry, which is not due yet.
            let earliest = choose|item: u64| #[trigger]
                is_earliest(before, item) && before[item]@ == now@ + nanos;
            assert(before.contains_key(earliest));
            assert(!has_due(before, now));
        },
        Next::Idle => {
            assert(before =~= Schedule::empty());
        },
    }
}

/// A queue of items, each scheduled for a point in time, that gives the items
/// back in the order in which they fall due.
///
/// An item is a `u64` and is its own key: it is scheduled at most once, and
/// scheduling it again moves it.
pub struct ScheduleQueue {
    heap: PriorityQueue<u64, Reverse<i128>>,
}

impl View for ScheduleQueue {
    type V = Schedule;

    /// The pending entries.
    closed spec fn view(&self) -> Schedule {
        Map::new(
            |item: u64| pending(self.heap).contains_key(item),
            |item: u64| Timestamp { nanos: pending(self.heap)[item] },
        )
    }
}

impl ScheduleQueue {
    /// A queue with nothing scheduled.
    pub fn new() -> (queue: ScheduleQueue)
        ensures
            queue@ == Schedule::empty(),
    {
        let queue = ScheduleQueue { heap: heap_new() };
        assert(queue@ =~= Schedule::empty());
        queue
    }

    /// Schedules `item` for `time`. An item that was scheduled already is
    /// moved to `time`, and its previous due time is reported.
    ///
    /// The caller is told to wake a waiting consumer exactly when `time` is
    /// strictly before everything that was scheduled until now, which includes
    /// the case that nothing was. The item's own previous due time counts
    /// among what was scheduled.
    pub fn schedule(&mut self, item: u64, time: Timestamp) -> (done: Scheduled)
        ensures
            final(self)@ == old(self)@.insert(item, time),
            done.previous == due_time(old(self)@, item),
            done.wake == precedes_all(old(self)@, time),
    {
        let wake = match heap_peek(&self.heap) {
            Some((head, earliest)) => {
                assert(self@.contains_key(head) && self@[head]@ == earliest);
                time.nanos < earliest
            },
            None => true,
        };
        let previous = match heap_push(&mut self.heap, item, time.nanos) {
            Some(nanos) => Some(Timestamp { nanos }),
            None => None,
        };
        assert(self@ =~= old(self)@.insert(item, time));
        Scheduled { previous, wake }
    }

    /// Takes `item` off the schedule, and returns it with the time that it was
    /// due. Where `item` is not scheduled, nothing changes and `None` is
    /// returned.
    pub fn deschedule(&mut self, item: &u64) -> (removed: Option<(u64, Timestamp)>)
        ensures
            final(self)@ == old(self)@.remove(*item),
            removed == entry_of(old(self)@, *item),
            !old(self)@.contains_key(*item) ==> removed is None && final(self)@ == old(self)@,
    {
        let removed = match heap_remove(&mut self.heap, *item) {
            Some((key, nanos)) => Some((key, Timestamp { nanos })),
            None => None,
        };
        assert(self@ =~= old(self)@.remove(*item));
        removed
    }

    /// One step of the consumer, at the time `now`.
    ///
    /// If an entry is due at or before `now`, an earliest one leaves the
    /// queue and is returned. If not, the queue is unchanged, and the answer
    /// is how long to sleep until the earliest entry falls due, or to wait
    /// where nothing is scheduled.
    pub fn next(&mut self, now: Timestamp) -> (answer: Next)
        ensures
            next_allows(old(self)@, now, answer, final(self)@),
            answer is Due <==> has_due(old(self)@, now),
            answer is Idle <==> old(self)@ == Schedule::empty(),
    {
        let answer = match heap_peek(&self.heap) {
            None => Next::Idle,
            Some((head, earliest)) => {
                if earliest <= now.nanos {
                    let (item, nanos) = heap_pop(&mut self.heap).unwrap();
                    assert(self@ =~= old(self)@.remove(item));
                    Next::Due(item, Timestamp { nanos })
                } else {
                    assert(is_earliest(self@, head));
                    Next::Wait(Timestamp { nanos: earliest }.nanos_since(now))
                }
            },
        };
        proof {
            lemma_next_answer(old(self)@, now, answer, self@);
        }
        answer
    }
}

impl Default for ScheduleQueue {
    /// A queue with nothing scheduled.
    fn default() -> (queue: ScheduleQueue)
        ensures
            queue@ == Schedule::empty(),
    {
        ScheduleQueue::new()
    }
}

} // verus!
