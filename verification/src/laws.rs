//! What holds of the schedule queue across several operations.
//!
//! Each law is stated over what a queue holds, a [`Schedule`], and over the
//! same functions as the contracts of the operations: `schedule` inserts,
//! `deschedule` removes, and `next` answers as [`next_allows`] says.

use crate::queue::{due_time, entry_of, is_earliest, next_allows, precedes_all, Next, Schedule};
use crate::time::Timestamp;
use vstd::prelude::*;

verus! {

/// What a queue holds after the calls `schedule(item, time)` for each
/// `(item, time)` of `calls`, in order, where it held `entries` before.
pub open spec fn after_scheduling(entries: Schedule, calls: Seq<(u64, Timestamp)>) -> Schedule
    decreases calls.len(),
{
    if calls.len() == 0 {
        entries
    } else {
        after_scheduling(entries, calls.drop_last()).insert(calls.last().0, calls.last().1)
    }
}

/// `items` can come out of a queue that holds `entries`, one after another
/// and with no other operation in between: each is an earliest item of what
/// the ones before it have left.
pub open spec fn handed_out_in_turn(entries: Schedule, items: Seq<u64>) -> bool
    decreases items.len(),
{
    items.len() > 0 ==> {
        &&& is_earliest(entries, items[0])
        &&& handed_out_in_turn(entries.remove(items[0]), items.drop_first())
    }
}

/// No two of `calls` are for the same item.
pub open spec fn distinct_items(calls: Seq<(u64, Timestamp)>) -> bool {
    forall|i: int, j: int| 0 <= i < j < calls.len() ==> calls[i].0 != calls[j].0
}

/// The due times of `calls` rise strictly from each call to the next.
pub open spec fn rising_times(calls: Seq<(u64, Timestamp)>) -> bool {
    forall|i: int, j: int| 0 <= i < j < calls.len() ==> calls[i].1@ < calls[j].1@
}

/// `entries` holds the items of `calls`, each with its time, and nothing else.
spec fn holds_exactly(entries: Schedule, calls: Seq<(u64, Timestamp)>) -> bool {
    &&& forall|i: int|
        0 <= i < calls.len() ==> #[trigger] entries.contains_key(calls[i].0)
            && entries[calls[i].0] == calls[i].1
    &&& forall|item: u64| #[trigger]
        entries.contains_key(item) ==> exists|i: int|
            0 <= i < calls.len() && #[trigger] calls[i].0 == item
}

/// Calls for different items, made on an empty queue, leave exactly their
/// own entries in it.
proof fn lemma_after_scheduling_holds(calls: Seq<(u64, Timestamp)>)
    requires
        distinct_items(calls),
    ensures
        holds_exactly(after_scheduling(Schedule::empty(), calls), calls),
    decreases calls.len(),
{
    if calls.len() > 0 {
        let front = calls.drop_last();
        lemma_after_scheduling_holds(front);
        let before = after_scheduling(Schedule::empty(), front);
        let after = before.insert(calls.last().0, calls.last().1);
        assert forall|i: int| 0 <= i < calls.len() implies #[trigger] after.contains_key(
            calls[i].0,
        ) && after[calls[i].0] == calls[i].1 by {
            if i < front.len() {
                assert(before.contains_key(front[i].0));
            }
        }
        assert forall|item: u64| #[trigger] after.contains_key(item) implies exists|i: int|
            0 <= i < calls.len() && #[trigger] calls[i].0 == item by {
            if item != calls.last().0 {
                let i = choose|i: int| 0 <= i < front.len() && #[trigger] front[i].0 == item;
                assert(calls[i].0 == item);
            }
        }
    }
}

/// From a queue that holds exactly the entries of `sorted`, whose times rise,
/// the items come out in the order of `sorted`.
proof fn lemma_leave_in_order(entries: Schedule, sorted: Seq<(u64, Timestamp)>, items: Seq<u64>)
    requires
        holds_exactly(entries, sorted),
        distinct_items(sorted),
        rising_times(sorted),
        items.len() == sorted.len(),
        handed_out_in_turn(entries, items),
    ensures
        forall|i: int| 0 <= i < items.len() ==> items[i] == sorted[i].0,
    decreases items.len(),
{
    if items.len() > 0 {
        // The first item out is an earliest one, and only the first of
        // `sorted` is that.
        let first = items[0];
        let at = choose|i: int| 0 <= i < sorted.len() && #[trigger] sorted[i].0 == first;
        assert(entries.contains_key(sorted[0].0));
        assert(at == 0);
        // What is left is exactly the rest of `sorted`.
        let rest = entries.remove(first);
        let later = sorted.drop_first();
        assert forall|i: int| 0 <= i < later.len() implies #[trigger] rest.contains_key(
            later[i].0,
        ) && rest[later[i].0] == later[i].1 by {
            assert(entries.contains_key(sorted[i + 1].0));
        }
        assert forall|item: u64| #[trigger] rest.contains_key(item) implies exists|i: int|
            0 <= i < later.len() && #[trigger] later[i].0 == item by {
            let i = choose|i: int| 0 <= i < sorted.len() && #[trigger] sorted[i].0 == item;
            assert(later[i - 1].0 == item);
        }
        assert(distinct_items(later));
        assert(rising_times(later));
        lemma_leave_in_order(rest, later, items.drop_first());
        assert forall|i: int| 0 <= i < items.len() implies items[i] == sorted[i].0 by {
            if i > 0 {
                assert(items.drop_first()[i - 1] == items[i]);
            }
        }
    }
}

/// Items come out in order of due time. Whatever a queue holds, the items
/// that successive `next` calls hand out are all different, were all
/// scheduled, and none of them was due before one that came out earlier.
pub proof fn lemma_handed_out_by_due_time(entries: Schedule, items: Seq<u64>)
    requires
        handed_out_in_turn(entries, items),
    ensures
        forall|i: int| 0 <= i < items.len() ==> entries.contains_key(#[trigger] items[i]),
        forall|i: int, j: int|
            0 <= i < j < items.len() ==> items[i] != items[j] && entries[items[i]]@
                <= entries[items[j]]@,
    decreases items.len(),
{
    if items.len() > 0 {
        let rest = entries.remove(items[0]);
        let later = items.drop_first();
        lemma_handed_out_by_due_time(rest, later);
        assert forall|i: int| 0 <= i < items.len() implies entries.contains_key(
            #[trigger] items[i],
        ) by {
            if i > 0 {
                assert(rest.contains_key(later[i - 1]));
            }
        }
        assert forall|i: int, j: int| 0 <= i < j < items.len() implies items[i] != items[j]
            && entries[items[i]]@ <= entries[items[j]]@ by {
            assert(rest.contains_key(later[j - 1]));
            if i > 0 {
                assert(rest.contains_key(later[i - 1]));
            }
        }
    }
}

/// Items scheduled for different times come out in exactly the order of
/// those times. Let `calls` be schedule calls on an empty queue, in any
/// order and each for another item, and let `sorted` be the same calls in
/// strictly rising order of due time. Then as many `next` calls as there
/// were schedule calls hand out the items of `sorted`, one by one.
pub proof fn lemma_next_follows_due_order(
    calls: Seq<(u64, Timestamp)>,
    sorted: Seq<(u64, Timestamp)>,
    items: Seq<u64>,
)
    requires
        distinct_items(calls),
        forall|i: int| 0 <= i < sorted.len() ==> calls.contains(#[trigger] sorted[i]),
        forall|i: int| 0 <= i < calls.len() ==> sorted.contains(#[trigger] calls[i]),
        rising_times(sorted),
        items.len() == sorted.len(),
        handed_out_in_turn(after_scheduling(Schedule::empty(), calls), items),
    ensures
        forall|i: int| 0 <= i < items.len() ==> items[i] == sorted[i].0,
{
    let entries = after_scheduling(Schedule::empty(), calls);
    lemma_after_scheduling_holds(calls);
    // The queue holds the entries of `calls`, which are those of `sorted`.
    assert forall|i: int| 0 <= i < sorted.len() implies #[trigger] entries.contains_key(
        sorted[i].0,
    ) && entries[sorted[i].0] == sorted[i].1 by {
        let c = choose|c: int| 0 <= c < calls.len() && calls[c] == sorted[i];
        assert(entries.contains_key(calls[c].0));
    }
    assert forall|item: u64| #[trigger] entries.contains_key(item) implies exists|i: int|
        0 <= i < sorted.len() && #[trigger] sorted[i].0 == item by {
        let c = choose|c: int| 0 <= c < calls.len() && #[trigger] calls[c].0 == item;
        let i = choose|i: int| 0 <= i < sorted.len() && sorted[i] == calls[c];
        assert(sorted[i].0 == item);
    }
    // Two of `sorted` for one item would have one due time.
    assert(distinct_items(sorted)) by {
        assert forall|i: int, j: int| 0 <= i < j < sorted.len() implies sorted[i].0
            != sorted[j].0 by {
            assert(entries.contains_key(sorted[i].0));
            assert(entries.contains_key(sorted[j].0));
        }
    }
    lemma_leave_in_order(entries, sorted, items);
}

/// Scheduling an item again replaces its entry. After `schedule(item, first)`
/// and `schedule(item, second)` the item is due at `second`, the second call
/// has reported `first`, and the queue holds what it would hold had only the
/// second call been made: the item once, and every other entry as before.
pub proof fn lemma_scheduling_again_replaces(
    entries: Schedule,
    item: u64,
    first: Timestamp,
    second: Timestamp,
)
    ensures
        due_time(entries.insert(item, first), item) == Some(first),
        due_time(entries.insert(item, first).insert(item, second), item) == Some(second),
        entries.insert(item, first).insert(item, second) == entries.insert(item, second),
        entries.insert(item, first).insert(item, second).dom() == entries.dom().insert(item),
{
}

/// Descheduling twice: the first call returns the entry, the second returns
/// nothing and changes nothing.
pub proof fn lemma_descheduling_again_finds_nothing(entries: Schedule, item: u64)
    requires
        entries.contains_key(item),
    ensures
        entry_of(entries, item) == Some((item, entries[item])),
        entry_of(entries.remove(item), item) is None,
        entries.remove(item).remove(item) == entries.remove(item),
{
}

/// Descheduling an item that is not scheduled returns nothing and changes
/// nothing.
pub proof fn lemma_descheduling_absent_item(entries: Schedule, item: u64)
    requires
        !entries.contains_key(item),
    ensures
        entry_of(entries, item) is None,
        entries.remove(item) == entries,
{
}

/// One operation on a queue, as it went through.
pub enum Event {
    /// `schedule` was called for this item, with this time.
    Schedule(u64, Timestamp),
    /// `deschedule` was called for this item.
    Deschedule(u64),
    /// `next` handed this item out.
    HandOut(u64),
}

/// `event` is a `schedule` call for `item`.
pub open spec fn schedules(event: Event, item: u64) -> bool {
    event matches Event::Schedule(scheduled, _) && scheduled == item
}

/// What a queue holds after `event`, where it held `entries` before.
pub open spec fn after_event(entries: Schedule, event: Event) -> Schedule {
    match event {
        Event::Schedule(item, time) => entries.insert(item, time),
        Event::Deschedule(item) => entries.remove(item),
        Event::HandOut(item) => entries.remove(item),
    }
}

/// `events` can happen, in this order, on a queue that holds `entries`:
/// whenever `next` hands an item out, it is an earliest item of what the
/// queue holds at that moment.
pub open spec fn can_happen(entries: Schedule, events: Seq<Event>) -> bool
    decreases events.len(),
{
    events.len() > 0 ==> {
        &&& events[0] matches Event::HandOut(item) ==> is_earliest(entries, item)
        &&& can_happen(after_event(entries, events[0]), events.drop_first())
    }
}

/// A descheduled item stays out. After `deschedule(item)`, whatever else is
/// scheduled, descheduled or handed out, `next` does not hand out `item`
/// unless it is scheduled again.
pub proof fn lemma_descheduled_item_stays_out(entries: Schedule, item: u64, events: Seq<Event>)
    requires
        can_happen(entries.remove(item), events),
        forall|i: int| 0 <= i < events.len() ==> !schedules(#[trigger] events[i], item),
    ensures
        forall|i: int| 0 <= i < events.len() ==> #[trigger] events[i] != Event::HandOut(item),
    decreases events.len(),
{
    if events.len() > 0 {
        // The first event is no hand-out of `item`, which the queue does not
        // hold, and leaves the queue without it.
        let left = after_event(entries.remove(item), events[0]);
        let later = events.drop_first();
        assert(!schedules(events[0], item));
        assert(left.remove(item) =~= left);
        assert forall|i: int| 0 <= i < later.len() implies !schedules(
            #[trigger] later[i],
            item,
        ) by {
            assert(later[i] == events[i + 1]);
        }
        lemma_descheduled_item_stays_out(left, item, later);
        assert forall|i: int| 0 <= i < events.len() implies #[trigger] events[i]
            != Event::HandOut(item) by {
            if i > 0 {
                assert(later[i - 1] == events[i]);
            }
        }
    }
}

/// An item that is due is handed out at once. Once `item` is scheduled for
/// a `time` at or before `now`, `next` does not answer `Wait` or `Idle`: it
/// hands out an item that was due no later than `time`, and `item` itself
/// where nothing else was due as early.
pub proof fn lemma_due_item_is_not_kept_waiting(
    entries: Schedule,
    item: u64,
    time: Timestamp,
    now: Timestamp,
    answer: Next,
    after: Schedule,
)
    requires
        time@ <= now@,
        next_allows(entries.insert(item, time), now, answer, after),
    ensures
        answer matches Next::Due(first, due) && due@ <= time@ && (precedes_all(entries, time)
            ==> first == item),
{
    let held = entries.insert(item, time);
    assert(held.contains_key(item));
}

/// An earlier item takes over. Where `schedule(item, time)` reports that a
/// waiting consumer has to be woken, which is where `time` is before
/// everything that was scheduled, the consumer's next step is about `item`:
/// `next` hands it out from its due time on, and before that answers that
/// the wait lasts until `time`.
pub proof fn lemma_earlier_item_takes_over(
    entries: Schedule,
    item: u64,
    time: Timestamp,
    now: Timestamp,
    answer: Next,
    after: Schedule,
)
    requires
        precedes_all(entries, time),
        next_allows(entries.insert(item, time), now, answer, after),
    ensures
        time@ <= now@ ==> answer == Next::Due(item, time),
        time@ > now@ ==> (answer matches Next::Wait(nanos) && nanos == time@ - now@),
        !(answer is Due) ==> after == entries.insert(item, time),
{
    let held = entries.insert(item, time);
    assert(held.contains_key(item));
    assert(is_earliest(held, item));
}

} // verus!
