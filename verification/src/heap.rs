//! The priority queue that holds the pending entries.
//!
//! The heap is `priority_queue::PriorityQueue`, keyed by item and ordered by
//! `Reverse` of the due time, so that its greatest priority is the earliest
//! due time. Verus does not look inside it: what it holds is named by
//! [`pending`], and the functions below state, without proof, what each of its
//! methods does to that.

use priority_queue::PriorityQueue;
use std::cmp::Reverse;
use vstd::prelude::*;

verus! {

/// `priority_queue::PriorityQueue`, opaque to the verifier.
#[verifier::external_type_specification]
#[verifier::external_body]
#[verifier::reject_recursive_types(I)]
#[verifier::reject_recursive_types(P)]
#[verifier::reject_recursive_types(H)]
pub struct ExPriorityQueue<I, P, H>(PriorityQueue<I, P, H>);

/// `std::cmp::Reverse`, opaque to the verifier.
#[verifier::external_type_specification]
#[verifier::external_body]
#[verifier::reject_recursive_types(T)]
pub struct ExReverse<T>(Reverse<T>);

/// What a heap holds: each item in it, with the due time (in nanoseconds
/// since the epoch) that it was last pushed with.
pub uninterp spec fn pending(heap: PriorityQueue<u64, Reverse<i128>>) -> Map<u64, i128>;

/// No item has an entry in `entries`.
pub open spec fn holds_nothing(entries: Map<u64, i128>) -> bool {
    forall|item: u64| !#[trigger] entries.contains_key(item)
}

/// No entry of `entries` is due before `due`.
pub open spec fn none_before(entries: Map<u64, i128>, due: i128) -> bool {
    forall|item: u64| #[trigger] entries.contains_key(item) ==> due <= entries[item]
}

/// `PriorityQueue::new`: a heap that holds nothing.
#[verifier::external_body]
pub(crate) fn heap_new() -> (fresh: PriorityQueue<u64, Reverse<i128>>)
    ensures
        holds_nothing(pending(fresh)),
{
    PriorityQueue::new()
}

/// `PriorityQueue::peek`: `None` exactly when the heap holds nothing, else an
/// entry of the greatest priority, which is one that no other entry is due
/// before. The heap is left as it is.
#[verifier::external_body]
pub(crate) fn heap_peek(
    heap: &PriorityQueue<u64, Reverse<i128>>,
) -> (top: Option<(u64, i128)>)
    ensures
        top is None <==> holds_nothing(pending(*heap)),
        top matches Some((item, due)) ==> pending(*heap).contains_key(item)
            && pending(*heap)[item] == due
            && none_before(pending(*heap), due),
{
    heap.peek().map(|(item, due)| (*item, due.0))
}

/// `PriorityQueue::push`: the item is in the heap with the new due time,
/// whether it was there before or not, and every other entry is as it was.
/// Returns the due time that the item had before, if it was there.
#[verifier::external_body]
pub(crate) fn heap_push(
    heap: &mut PriorityQueue<u64, Reverse<i128>>,
    item: u64,
    due: i128,
) -> (previous: Option<i128>)
    ensures
        pending(*final(heap)) == pending(*old(heap)).insert(item, due),
        previous == (if pending(*old(heap)).contains_key(item) {
            Some(pending(*old(heap))[item])
        } else {
            None
        }),
{
    heap.push(item, Reverse(due)).map(|previous| previous.0)
}

/// `PriorityQueue::remove`: the item's entry leaves the heap and is
/// returned; where the heap does not hold the item, nothing changes and
/// `None` is returned.
#[verifier::external_body]
pub(crate) fn heap_remove(
    heap: &mut PriorityQueue<u64, Reverse<i128>>,
    item: u64,
) -> (removed: Option<(u64, i128)>)
    ensures
        pending(*final(heap)) == pending(*old(heap)).remove(item),
        removed == (if pending(*old(heap)).contains_key(item) {
            Some((item, pending(*old(heap))[item]))
        } else {
            None
        }),
{
    heap.remove(&item).map(|(item, due)| (item, due.0))
}

/// `PriorityQueue::pop`: `None` exactly when the heap holds nothing, else an
/// entry of the greatest priority, which is one that no other entry is due
/// before; that entry leaves the heap and every other entry is as it was.
#[verifier::external_body]
pub(crate) fn heap_pop(
    heap: &mut PriorityQueue<u64, Reverse<i128>>,
) -> (top: Option<(u64, i128)>)
    ensures
        top is None <==> holds_nothing(pending(*old(heap))),
        top is None ==> pending(*final(heap)) == pending(*old(heap)),
        top matches Some((item, due)) ==> pending(*old(heap)).contains_key(item)
            && pending(*old(heap))[item] == due
            && none_before(pending(*old(heap)), due)
            && pending(*final(heap)) == pending(*old(heap)).remove(item),
{
    heap.pop().map(|(item, due)| (item, due.0))
}

} // verus!
