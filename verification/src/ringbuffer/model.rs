//! What a ring buffer does, stated on the sequence of its elements.

use vstd::prelude::*;

verus! {

/// The elements of a buffer of `capacity` slots after `value` was pushed:
/// a full buffer loses its oldest element first.
pub open spec fn spec_push<T>(elements: Seq<T>, capacity: nat, value: T) -> Seq<T> {
    if elements.len() >= capacity {
        elements.subrange(1, elements.len() as int).push(value)
    } else {
        elements.push(value)
    }
}

/// The element that a push into a buffer of `capacity` slots evicts: the
/// oldest one of a full buffer, and none otherwise.
pub open spec fn spec_evicted<T>(elements: Seq<T>, capacity: nat) -> Option<T> {
    if elements.len() >= capacity {
        Some(elements[0])
    } else {
        None
    }
}

/// The elements that are left when the last `n` are removed.
pub open spec fn spec_truncate<T>(elements: Seq<T>, n: nat) -> Seq<T> {
    if n >= elements.len() {
        Seq::empty()
    } else {
        elements.subrange(0, elements.len() - n)
    }
}

/// The elements that are kept when the capacity becomes `new_capacity`: the
/// most recent ones, in their order.
pub open spec fn spec_resize<T>(elements: Seq<T>, new_capacity: nat) -> Seq<T> {
    if new_capacity >= elements.len() {
        elements
    } else {
        elements.subrange(elements.len() - new_capacity, elements.len() as int)
    }
}

/// The elements of a buffer after each of `values` was pushed in turn.
pub open spec fn spec_push_all<T>(elements: Seq<T>, capacity: nat, values: Seq<T>) -> Seq<T>
    decreases values.len(),
{
    if values.len() == 0 {
        elements
    } else {
        spec_push(spec_push_all(elements, capacity, values.drop_last()), capacity, values.last())
    }
}

/// What the pushes of `values` return, one entry for each push.
pub open spec fn spec_evicted_all<T>(elements: Seq<T>, capacity: nat, values: Seq<T>) -> Seq<
    Option<T>,
>
    decreases values.len(),
{
    if values.len() == 0 {
        Seq::empty()
    } else {
        spec_evicted_all(elements, capacity, values.drop_last()).push(
            spec_evicted(spec_push_all(elements, capacity, values.drop_last()), capacity),
        )
    }
}

/// Pushing into an empty buffer keeps the most recent `capacity` values in
/// push order.
pub proof fn lemma_push_all_keeps_latest<T>(capacity: nat, values: Seq<T>)
    requires
        capacity >= 1,
    ensures
        spec_push_all(Seq::<T>::empty(), capacity, values) == spec_resize(values, capacity),
    decreases values.len(),
{
    if values.len() > 0 {
        let init = values.drop_last();
        lemma_push_all_keeps_latest(capacity, init);
        let before = spec_resize(init, capacity);
        assert(spec_push(before, capacity, values.last()) =~= spec_resize(values, capacity));
    } else {
        assert(spec_resize(values, capacity) =~= Seq::<T>::empty());
    }
}

/// First in, first out: after `capacity + k` pushes into an empty buffer,
/// with `k >= 1`, the buffer holds the last `capacity` values in push
/// order, the first `capacity` pushes evicted nothing, and the push of the
/// value at `capacity + i` evicted the value at `i`.
pub proof fn lemma_fifo<T>(capacity: nat, k: nat, values: Seq<T>)
    requires
        capacity >= 1,
        k >= 1,
        values.len() == capacity + k,
    ensures
        spec_push_all(Seq::<T>::empty(), capacity, values) == values.subrange(
            k as int,
            (capacity + k) as int,
        ),
        spec_evicted_all(Seq::<T>::empty(), capacity, values).len() == capacity + k,
        forall|i: int|
            0 <= i < capacity ==> (#[trigger] spec_evicted_all(
                Seq::<T>::empty(),
                capacity,
                values,
            )[i]) is None,
        forall|i: int|
            0 <= i < k ==> #[trigger] spec_evicted_all(Seq::<T>::empty(), capacity, values)[capacity
                + i] == Some(values[i]),
{
    lemma_push_all_keeps_latest(capacity, values);
    lemma_evicted_all(capacity, values);
}

/// What each push into an empty buffer returns: nothing while the buffer
/// fills, then the value pushed `capacity` pushes earlier.
pub proof fn lemma_evicted_all<T>(capacity: nat, values: Seq<T>)
    requires
        capacity >= 1,
    ensures
        spec_evicted_all(Seq::<T>::empty(), capacity, values).len() == values.len(),
        forall|i: int|
            0 <= i < values.len() ==> #[trigger] spec_evicted_all(
                Seq::<T>::empty(),
                capacity,
                values,
            )[i] == if i < capacity {
                None
            } else {
                Some(values[i - capacity])
            },
    decreases values.len(),
{
    if values.len() > 0 {
        let init = values.drop_last();
        lemma_evicted_all(capacity, init);
        lemma_push_all_keeps_latest(capacity, init);
        let all = spec_evicted_all(Seq::<T>::empty(), capacity, values);
        let before = spec_evicted_all(Seq::<T>::empty(), capacity, init);
        assert forall|i: int| 0 <= i < values.len() implies #[trigger] all[i] == if i < capacity {
            None
        } else {
            Some(values[i - capacity])
        } by {
            if i < init.len() {
                assert(all[i] == before[i]);
                if i >= capacity {
                    assert(init[i - capacity] == values[i - capacity]);
                }
            } else {
                let kept = spec_resize(init, capacity);
                assert(all[i] == spec_evicted(kept, capacity));
                if i >= capacity {
                    assert(kept[0] == init[init.len() - capacity]);
                    assert(init[i - capacity] == values[i - capacity]);
                }
            }
        }
    }
}

/// A push after a truncation that removed something evicts nothing.
pub proof fn lemma_push_after_truncate<T>(elements: Seq<T>, capacity: nat, n: nat)
    requires
        elements.len() <= capacity,
        elements.len() >= 1,
        n >= 1,
    ensures
        spec_truncate(elements, n).len() == if elements.len() >= n {
            elements.len() - n
        } else {
            0
        },
        spec_evicted(spec_truncate(elements, n), capacity) is None,
{
}

/// Growing keeps every element; shrinking keeps exactly the last
/// `new_capacity` elements.
pub proof fn lemma_resize<T>(elements: Seq<T>, new_capacity: nat)
    ensures
        new_capacity >= elements.len() ==> spec_resize(elements, new_capacity) == elements,
        new_capacity < elements.len() ==> {
            &&& spec_resize(elements, new_capacity).len() == new_capacity
            &&& forall|i: int|
                0 <= i < new_capacity ==> #[trigger] spec_resize(elements, new_capacity)[i]
                    == elements[elements.len() - new_capacity + i]
        },
{
}

} // verus!
