use vstd::prelude::*;

verus! {

/// A fixed-size storage arena: `capacity()` slots, each either holding a live
/// value (`Some`) or standing uninitialized (`None`).
///
/// The buffer is pure storage. It never decides on its own which slots hold
/// live values and never finalizes one: moving a value out leaves the slot
/// uninitialized, so when the buffer is released only slots that still hold
/// values are finalized, and an uninitialized slot never is. Tracking which
/// slots are live is the owner's duty.
pub struct Buffer<T> {
    pub slots: Vec<Option<T>>,
}

impl<T> View for Buffer<T> {
    type V = Seq<Option<T>>;

    open spec fn view(&self) -> Seq<Option<T>> {
        self.slots@
    }
}

impl<T> Buffer<T> {
    /// Total number of element slots, live or not.
    pub open spec fn spec_capacity(&self) -> nat {
        self@.len()
    }

    /// Allocate a buffer of `capacity` slots, all of them uninitialized.
    pub fn new(capacity: usize) -> (r: Buffer<T>)
        ensures
            r.spec_capacity() == capacity,
            forall|i: int| 0 <= i < capacity ==> r@[i] is None,
    {
        let mut slots: Vec<Option<T>> = Vec::new();
        while slots.len() < capacity
            invariant
                slots@.len() <= capacity,
                forall|i: int| 0 <= i < slots@.len() ==> slots@[i] is None,
            decreases capacity - slots@.len(),
        {
            slots.push(None);
        }
        Buffer { slots }
    }

    /// Adopt externally built storage as a buffer, taking full ownership of
    /// it; its length is the exact capacity. No slot is copied or finalized.
    pub fn from_raw_parts(slots: Vec<Option<T>>) -> (r: Buffer<T>)
        ensures
            r@ == slots@,
    {
        Buffer { slots }
    }

    /// The capacity counts slots of real storage, so it fits in `usize`.
    pub proof fn lemma_capacity_bound(&self)
        ensures
            self.spec_capacity() <= usize::MAX,
    {
        assert(self.spec_capacity() == vstd::std_specs::vec::spec_vec_len(&self.slots));
    }

    pub fn capacity(&self) -> (r: usize)
        ensures
            r == self.spec_capacity(),
    {
        self.slots.len()
    }

    /// Move the value out of slot `i`, which must be live; the slot is left
    /// uninitialized, so the value's ownership transfers without duplication.
    pub fn take(&mut self, i: usize) -> (r: T)
        requires
            i < old(self).spec_capacity(),
            old(self)@[i as int] is Some,
        ensures
            final(self)@ == old(self)@.update(i as int, None::<T>),
            old(self)@[i as int] == Some(r),
    {
        let mut slot: Option<T> = None;
        self.slots.set_and_swap(i, &mut slot);
        slot.unwrap()
    }

    /// Initialize slot `i`, which must be uninitialized, with `value`.
    pub fn put(&mut self, i: usize, value: T)
        requires
            i < old(self).spec_capacity(),
            old(self)@[i as int] is None,
        ensures
            final(self)@ == old(self)@.update(i as int, Some(value)),
    {
        self.slots.set(i, Some(value));
    }

    /// Borrow the value in slot `i`, which must be live.
    pub fn read(&self, i: usize) -> (r: &T)
        requires
            i < self.spec_capacity(),
            self@[i as int] is Some,
        ensures
            self@[i as int] == Some(*r),
    {
        self.slots[i].as_ref().unwrap()
    }
}

} // verus!
