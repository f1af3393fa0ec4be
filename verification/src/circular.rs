//! A fixed-capacity ring of the most recent values, traversed newest first.

use vstd::prelude::*;

verus! {

/// The mathematical model of a ring: its slots in storage order and the
/// position of the cursor.
pub ghost struct Ring<T> {
    pub slots: Seq<Option<T>>,
    pub cursor: int,
}

impl<T> Ring<T> {
    /// The ring of `capacity` empty slots with the cursor at the first slot.
    pub open spec fn empty(capacity: nat) -> Ring<T> {
        Ring { slots: Seq::new(capacity, |i: int| None::<T>), cursor: 0 }
    }

    /// The number of slots.
    pub open spec fn capacity(self) -> nat {
        self.slots.len()
    }

    /// The cursor points at a slot, or the ring has no slot at all.
    pub open spec fn wf(self) -> bool {
        0 <= self.cursor < self.capacity() || (self.capacity() == 0 && self.cursor == 0)
    }

    /// The storage position of the slot `index` steps after the cursor,
    /// wrapping at the capacity. For a cursor on a slot and an index below
    /// the capacity this is their sum modulo the capacity, see
    /// [`Ring::law_slots_wrap`].
    pub open spec fn slot_of(self, index: int) -> int {
        if self.cursor + index < self.capacity() {
            self.cursor + index
        } else {
            self.cursor + index - self.capacity()
        }
    }

    /// Where the cursor stands after the next value is stored.
    pub open spec fn stored_cursor(self) -> int {
        self.slot_of(1)
    }

    /// The ring after `value` is stored: the cursor moves to the next slot
    /// and that slot is overwritten.
    pub open spec fn stored(self, value: T) -> Ring<T> {
        let next = self.stored_cursor();
        Ring { slots: self.slots.update(next, Some(value)), cursor: next }
    }

    /// The slot at logical `index`, counted from the cursor.
    pub open spec fn get(self, index: int) -> Option<T> {
        if 0 <= index < self.capacity() {
            self.slots[self.slot_of(index)]
        } else {
            None
        }
    }

    /// The slot under the cursor.
    pub open spec fn last(self) -> Option<T> {
        self.slots[self.cursor]
    }

    /// The values in the slots at logical indices `index`, `index + 1`, ...
    /// up to the capacity, in that order, empty slots left out.
    pub open spec fn items_from(self, index: int) -> Seq<T>
        decreases self.capacity() - index,
    {
        if 0 <= index < self.capacity() {
            match self.get(index) {
                Some(value) => seq![value] + self.items_from(index + 1),
                None => self.items_from(index + 1),
            }
        } else {
            Seq::empty()
        }
    }

    /// What a traversal yields: the stored values by logical index.
    pub open spec fn items(self) -> Seq<T> {
        self.items_from(0)
    }
}

/// Reducing a value below `2 * n` modulo `n` subtracts `n` at most once.
pub proof fn lemma_wrap(x: int, n: int)
    requires
        0 < n,
        0 <= x < 2 * n,
    ensures
        x % n == if x < n { x } else { x - n },
{
    if x < n {
        vstd::arithmetic::div_mod::lemma_small_mod(x as nat, n as nat);
    } else {
        vstd::arithmetic::div_mod::lemma_mod_sub_multiples_vanish(x, n);
        vstd::arithmetic::div_mod::lemma_small_mod((x - n) as nat, n as nat);
    }
}

impl<T> Ring<T> {
    /// The ring of `capacity` slots after the values of `history` were
    /// stored in it one by one, first to last.
    pub open spec fn after(capacity: nat, history: Seq<T>) -> Ring<T>
        decreases history.len(),
    {
        if history.len() == 0 {
            Ring::empty(capacity)
        } else {
            Ring::after(capacity, history.drop_last()).stored(history.last())
        }
    }

    /// What the slot at logical index `index` holds after `history`: the
    /// newest value at index 0, and at a later index the value stored
    /// `capacity - index` steps ago, if there were that many steps.
    pub open spec fn expected(capacity: nat, history: Seq<T>, index: int) -> Option<T> {
        let back = if index == 0 {
            0
        } else {
            capacity - index
        };
        if 0 <= index < capacity && back < history.len() {
            Some(history[history.len() - 1 - back])
        } else {
            None
        }
    }

    /// Slots are counted modulo the capacity: the slot `index` steps after
    /// the cursor lies at the sum of cursor and index modulo the capacity.
    pub proof fn law_slots_wrap(self, index: int)
        requires
            self.capacity() > 0,
            self.wf(),
            0 <= index <= self.capacity(),
        ensures
            self.slot_of(index) == (self.cursor + index) % (self.capacity() as int),
            self.stored_cursor() == (self.cursor + 1) % (self.capacity() as int),
    {
        lemma_wrap(self.cursor + index, self.capacity() as int);
        lemma_wrap(self.cursor + 1, self.capacity() as int);
    }

    /// Storing keeps the capacity and leaves the cursor on a slot.
    pub proof fn lemma_after_wf(capacity: nat, history: Seq<T>)
        requires
            capacity > 0,
        ensures
            Ring::after(capacity, history).capacity() == capacity,
            Ring::after(capacity, history).wf(),
            Ring::after(capacity, history).cursor == history.len() % capacity,
        decreases history.len(),
    {
        if history.len() > 0 {
            Ring::lemma_after_wf(capacity, history.drop_last());
            let before = Ring::after(capacity, history.drop_last());
            lemma_wrap(before.cursor + 1, capacity as int);
            vstd::arithmetic::div_mod::lemma_add_mod_noop(
                history.len() - 1,
                1,
                capacity as int,
            );
            vstd::arithmetic::div_mod::lemma_mod_twice(history.len() - 1, capacity as int);
            if capacity == 1 {
            } else {
                vstd::arithmetic::div_mod::lemma_small_mod(1, capacity);
            }
        } else {
            vstd::arithmetic::div_mod::lemma_small_mod(0, capacity);
        }
    }

    /// Every slot holds what `expected` says.
    pub proof fn lemma_after_get(capacity: nat, history: Seq<T>, index: int)
        requires
            capacity > 0,
        ensures
            Ring::after(capacity, history).get(index) == Ring::expected(capacity, history, index),
        decreases history.len(),
    {
        Ring::lemma_after_wf(capacity, history);
        let n = capacity as int;
        if 0 <= index < n && history.len() > 0 {
            let earlier = history.drop_last();
            Ring::lemma_after_wf(capacity, earlier);
            if index == 0 {
            } else if index + 1 < n {
                Ring::lemma_after_get(capacity, earlier, index + 1);
            } else {
                Ring::lemma_after_get(capacity, earlier, 0);
            }
        }
    }

    /// The values at logical indices `index` and later are the retained
    /// values from that age on, oldest first, the newest left out.
    pub proof fn lemma_after_items_from(capacity: nat, history: Seq<T>, index: int)
        requires
            capacity > 0,
            history.len() > 0,
            1 <= index <= capacity,
        ensures
            Ring::after(capacity, history).items_from(index) == history.subrange(
                if history.len() - 1 - (capacity - index) > 0 {
                    history.len() - 1 - (capacity - index)
                } else {
                    0
                },
                history.len() - 1,
            ),
        decreases capacity - index,
    {
        let ring = Ring::after(capacity, history);
        Ring::lemma_after_wf(capacity, history);
        let k = history.len() as int;
        let low = if k - 1 - (capacity - index) > 0 {
            k - 1 - (capacity - index)
        } else {
            0
        };
        if index == capacity {
            assert(ring.items_from(index) =~= history.subrange(low, k - 1));
        } else {
            Ring::lemma_after_get(capacity, history, index);
            Ring::lemma_after_items_from(capacity, history, index + 1);
            assert(ring.items_from(index) =~= history.subrange(low, k - 1));
        }
    }

    /// After any values were stored in a ring with at least one slot, a
    /// logical index at or beyond the capacity shows an empty slot.
    pub proof fn law_beyond_capacity_is_empty(capacity: nat, history: Seq<T>, index: int)
        requires
            capacity > 0 || history.len() == 0,
            index >= capacity,
        ensures
            Ring::after(capacity, history).get(index) is None,
    {
        if capacity > 0 {
            Ring::lemma_after_wf(capacity, history);
        }
    }

    /// After at least one value was stored, the slot under the cursor holds
    /// the value stored last, and so does logical index 0.
    pub proof fn law_last_is_newest(capacity: nat, history: Seq<T>)
        requires
            capacity > 0,
            history.len() > 0,
        ensures
            Ring::after(capacity, history).last() == Some(history.last()),
            Ring::after(capacity, history).get(0) == Some(history.last()),
    {
        Ring::lemma_after_wf(capacity, history);
        Ring::lemma_after_wf(capacity, history.drop_last());
        Ring::lemma_after_get(capacity, history, 0);
    }

    /// A traversal yields the newest value first and then the other values
    /// that the ring still holds, from the oldest to the second newest. The
    /// ring holds the last `capacity` values stored, or all of them while
    /// fewer were stored.
    pub proof fn law_traversal_order(capacity: nat, history: Seq<T>)
        requires
            capacity > 0,
            history.len() > 0,
        ensures
            Ring::after(capacity, history).items() == seq![history.last()] + history.subrange(
                if history.len() > capacity {
                    history.len() - capacity
                } else {
                    0
                },
                history.len() - 1,
            ),
    {
        let ring = Ring::after(capacity, history);
        Ring::lemma_after_wf(capacity, history);
        Ring::lemma_after_get(capacity, history, 0);
        Ring::lemma_after_items_from(capacity, history, 1);
    }

    /// Before anything was stored a traversal yields nothing.
    pub proof fn law_empty_traversal(capacity: nat)
        ensures
            Ring::<T>::empty(capacity).items() == Seq::<T>::empty(),
    {
        Ring::<T>::lemma_empty_items_from(capacity, 0);
    }

    proof fn lemma_empty_items_from(capacity: nat, index: int)
        requires
            0 <= index,
        ensures
            Ring::<T>::empty(capacity).items_from(index) == Seq::<T>::empty(),
        decreases capacity - index,
    {
        if index < capacity {
            Ring::<T>::lemma_empty_items_from(capacity, index + 1);
        }
    }
}

/// A ring buffer of `N` slots. Storing a value overwrites the oldest one once
/// the buffer is full.
pub struct Circular<T, const N: usize> {
    data: [Option<T>; N],
    current: usize,
}

impl<T, const N: usize> View for Circular<T, N> {
    type V = Ring<T>;

    closed spec fn view(&self) -> Ring<T> {
        Ring { slots: self.data@, cursor: self.current as int }
    }
}

/// `core::array::from_fn` with a closure that yields `None` for every index:
/// every slot of the array it builds is empty.
#[verifier::external_body]
fn empty_slots<T, const N: usize>() -> (slots: [Option<T>; N])
    ensures
        forall|i: int| 0 <= i < N ==> slots@[i] is None,
{
    core::array::from_fn(|_| None)
}

impl<T, const N: usize> Circular<T, N> {
    #[verifier::type_invariant]
    spec fn inv(self) -> bool {
        self@.wf()
    }

    /// An empty buffer.
    pub fn new() -> (ring: Self)
        ensures
            ring@ == Ring::<T>::empty(N as nat),
            ring@.capacity() == N,
            ring@.wf(),
    {
        let ring = Circular { data: empty_slots(), current: 0 };
        assert(ring@.slots =~= Ring::<T>::empty(N as nat).slots);
        ring
    }

    /// Stores `v` in the slot after the cursor and moves the cursor there.
    pub fn add(&mut self, v: T)
        requires
            N > 0,
        ensures
            final(self)@ == old(self)@.stored(v),
            final(self)@.last() == Some(v),
            final(self)@.capacity() == N,
            final(self)@.wf(),
    {
        proof {
            use_type_invariant(&*self);
            lemma_wrap(self.current + 1, N as int);
        }
        self.current = (self.current + 1) % N;
        self.data[self.current] = Some(v);
    }

    /// The slot at logical `index`, counted from the cursor; empty beyond the
    /// capacity.
    pub fn get(&self, index: usize) -> (slot: &Option<T>)
        ensures
            *slot == self@.get(index as int),
            index >= N ==> *slot is None,
            self@.capacity() == N,
            self@.wf(),
    {
        proof {
            use_type_invariant(self);
        }
        if index >= N {
            &None
        } else {
            // `current + index` may exceed `usize::MAX`; both are below `N`.
            let room = N - self.current;
            let array_index = if index >= room {
                index - room
            } else {
                self.current + index
            };
            &self.data[array_index]
        }
    }

    /// The most recently stored value, or `None` if nothing was stored yet.
    pub fn last(&self) -> (slot: &Option<T>)
        requires
            N > 0,
        ensures
            *slot == self@.last(),
            *slot == self@.get(0),
            self@.capacity() == N,
            self@.wf(),
    {
        proof {
            use_type_invariant(self);
        }
        &self.data[self.current]
    }

    /// A traversal of the stored values by logical index, starting at the
    /// cursor. Every call starts a fresh traversal.
    pub fn iter<'a>(&'a self) -> (iter: CircularIterator<'a, T, N>)
        ensures
            iter.source() == self@,
            iter.position() == 0,
            iter.remaining() == self@.items(),
            self@.capacity() == N,
            self@.wf(),
    {
        proof {
            use_type_invariant(self);
        }
        CircularIterator { circular: self, current: 0 }
    }
}

/// A traversal of a [`Circular`] in progress.
pub struct CircularIterator<'a, T, const N: usize> {
    circular: &'a Circular<T, N>,
    current: usize,
}

impl<'a, T, const N: usize> CircularIterator<'a, T, N> {
    #[verifier::type_invariant]
    spec fn inv(self) -> bool {
        self.current <= N
    }

    /// The ring that is traversed.
    pub closed spec fn source(&self) -> Ring<T> {
        self.circular@
    }

    /// The logical index of the next slot to look at.
    pub closed spec fn position(&self) -> int {
        self.current as int
    }

    /// The values still to come.
    pub open spec fn remaining(&self) -> Seq<T> {
        self.source().items_from(self.position())
    }

    /// No slot from logical index `from` up to `to` holds a value.
    pub open spec fn skipped(&self, from: int, to: int) -> bool {
        forall|i: int| from <= i < to ==> #[trigger] self.source().get(i) is None
    }

    /// The next stored value, skipping empty slots; `None` once every slot
    /// has been passed.
    pub fn next(&mut self) -> (item: Option<&'a T>)
        ensures
            final(self).source() == old(self).source(),
            match item {
                Some(value) => {
                    &&& old(self).position() < final(self).position() <= N
                    &&& old(self).skipped(old(self).position(), final(self).position() - 1)
                    &&& old(self).source().get(final(self).position() - 1) == Some(*value)
                    &&& old(self).remaining().len() > 0
                    &&& old(self).remaining()[0] == *value
                    &&& final(self).remaining() == old(self).remaining().skip(1)
                },
                None => {
                    &&& old(self).position() <= final(self).position()
                    &&& final(self).position() >= N
                    &&& old(self).skipped(old(self).position(), N as int)
                    &&& old(self).remaining().len() == 0
                    &&& final(self).remaining().len() == 0
                },
            },
        decreases N - old(self).position(),
    {
        proof {
            use_type_invariant(&*self);
            use_type_invariant(self.circular);
        }
        if self.current >= N {
            None
        } else {
            self.current += 1;
            if let Some(entry) = self.circular.get(self.current - 1) {
                assert(old(self).remaining().skip(1) =~= self.remaining());
                Some(entry)
            } else {
                self.next()
            }
        }
    }
}

} // verus!
