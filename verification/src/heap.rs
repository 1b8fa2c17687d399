//! The tower's event queue: a min-heap of `(z, y, x, vertex index)` keys
//! from an outside crate, held behind trusted wrappers whose contracts
//! speak of the heap's contents as a multiset.

use vstd::multiset::Multiset;
use vstd::prelude::*;

verus! {

/// An event key: a vertex's coordinates in sweep order, then its index.
/// The standard tuple order is lexicographic, so popping least keys yields
/// vertices from bottom to top.
pub type EventKey = (i64, i64, i64, usize);

#[verifier::external_type_specification]
#[verifier::external_body]
#[verifier::reject_recursive_types(T)]
#[verifier::reject_recursive_types(C)]
/// The heap type of the outside crate, declared for Verus.
pub struct ExBinaryHeap<T, C>(binary_heap_plus::BinaryHeap<T, C>);

#[verifier::external_type_specification]
/// The outside crate's least-first comparator, declared for Verus.
pub struct ExMinComparator(binary_heap_plus::MinComparator);

/// What the heap holds, as a multiset of keys.
pub uninterp spec fn heap_contents(
    h: binary_heap_plus::BinaryHeap<EventKey, binary_heap_plus::MinComparator>,
) -> Multiset<EventKey>;

/// The standard lexicographic order on event keys.
pub open spec fn key_le(a: EventKey, b: EventKey) -> bool {
    if a.0 != b.0 {
        a.0 < b.0
    } else if a.1 != b.1 {
        a.1 < b.1
    } else if a.2 != b.2 {
        a.2 < b.2
    } else {
        a.3 <= b.3
    }
}

/// Relies on `binary_heap_plus::BinaryHeap::new_min`: a fresh heap holds
/// nothing.
#[verifier::external_body]
pub fn heap_new() -> (r: binary_heap_plus::BinaryHeap<EventKey, binary_heap_plus::MinComparator>)
    ensures
        heap_contents(r) == Multiset::<EventKey>::empty(),
{
    binary_heap_plus::BinaryHeap::new_min()
}

/// Relies on `binary_heap_plus::BinaryHeap::push`: the pushed key joins the
/// contents.
#[verifier::external_body]
pub fn heap_push(
    h: &mut binary_heap_plus::BinaryHeap<EventKey, binary_heap_plus::MinComparator>,
    k: EventKey,
)
    ensures
        heap_contents(*final(h)) == heap_contents(*old(h)).insert(k),
{
    h.push(k)
}

/// Relies on `binary_heap_plus::BinaryHeap::pop` with the least-first
/// comparator: removes and returns a least key, or `None` when the heap is
/// empty.
#[verifier::external_body]
pub fn heap_pop(
    h: &mut binary_heap_plus::BinaryHeap<EventKey, binary_heap_plus::MinComparator>,
) -> (r: Option<EventKey>)
    ensures
        (match r {
            Some(k) => heap_contents(*old(h)).contains(k) && heap_contents(*final(h))
                == heap_contents(*old(h)).remove(k) && (forall|x: EventKey|
                heap_contents(*old(h)).contains(x) ==> key_le(k, x)),
            None => heap_contents(*old(h)) == Multiset::<EventKey>::empty() && heap_contents(
                *final(h),
            ) == heap_contents(*old(h)),
        }),
{
    h.pop()
}

/// Relies on `binary_heap_plus::BinaryHeap::peek` with the least-first
/// comparator: hands back a least key without removing it, or `None` when
/// the heap is empty.
#[verifier::external_body]
pub fn heap_peek(
    h: &binary_heap_plus::BinaryHeap<EventKey, binary_heap_plus::MinComparator>,
) -> (r: Option<EventKey>)
    ensures
        (match r {
            Some(k) => heap_contents(*h).contains(k) && (forall|x: EventKey|
                heap_contents(*h).contains(x) ==> key_le(k, x)),
            None => heap_contents(*h) == Multiset::<EventKey>::empty(),
        }),
{
    h.peek().copied()
}

/// Relies on `binary_heap_plus::BinaryHeap::is_empty`: true exactly when
/// the heap holds nothing.
#[verifier::external_body]
pub fn heap_is_empty(
    h: &binary_heap_plus::BinaryHeap<EventKey, binary_heap_plus::MinComparator>,
) -> (r: bool)
    ensures
        r == (heap_contents(*h) == Multiset::<EventKey>::empty()),
{
    h.is_empty()
}

} // verus!
