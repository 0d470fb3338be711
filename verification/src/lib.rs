//! A double-ended growable array.
//!
//! `DVec<T>` keeps a logical window of live elements centered inside a larger
//! storage arena, so that both `push_front` and `push_back` run in amortized
//! constant time: when the window runs out of headroom on one side, the arena
//! is grown by doubling and the window is re-centered.

pub mod buffer;

use vstd::prelude::*;
use vstd::std_specs::cmp::PartialEqSpec;

use crate::buffer::Buffer;

verus! {

/// Element-wise equality of two logical sequences under `T`'s own equality:
/// equal lengths, and every corresponding pair of elements equal.
pub open spec fn elems_eq<T: PartialEq>(a: Seq<T>, b: Seq<T>) -> bool {
    a.len() == b.len() && forall|i: int| 0 <= i < a.len() ==> a[i].eq_spec(&b[i])
}

/// A double-ended growable array.
///
/// Logical element `i` (front to back) lives in physical slot `offset + i` of
/// the owned buffer. Slots inside the window `[offset, offset + length)` are
/// always live; slots outside it are always uninitialized.
pub struct DVec<T> {
    pub buf: Buffer<T>,
    pub offset: usize,
    pub length: usize,
}

impl<T> View for DVec<T> {
    type V = Seq<T>;

    /// The logical front-to-back sequence of elements.
    open spec fn view(&self) -> Seq<T> {
        Seq::new(self.length as nat, |i: int| self.buf@[self.offset + i]->0)
    }
}

impl<T> DVec<T> {
    /// Well-formedness: the window fits in the buffer, and a slot holds a
    /// live value exactly when it lies inside the window. Every constructor
    /// establishes this and every operation preserves it; it is what makes
    /// destruction finalize each live element once and no uninitialized slot
    /// ever.
    pub open spec fn wf(&self) -> bool {
        &&& self.offset + self.length <= self.buf.spec_capacity()
        &&& forall|i: int|
            0 <= i < self.buf.spec_capacity()
                ==> (self.buf@[i] is Some <==> self.offset <= i < self.offset + self.length)
    }

    pub open spec fn spec_capacity(&self) -> nat {
        self.buf.spec_capacity()
    }

    /// An empty array with no storage at all.
    pub fn new() -> (r: DVec<T>)
        ensures
            r.wf(),
            r@ == Seq::<T>::empty(),
            r.spec_capacity() == 0,
    {
        DVec::with_capacity(0)
    }

    /// An empty array over `capacity` slots, with the window centered so that
    /// both push directions start with equal headroom.
    pub fn with_capacity(capacity: usize) -> (r: DVec<T>)
        ensures
            r.wf(),
            r@ == Seq::<T>::empty(),
            r.spec_capacity() == capacity,
            r.offset == capacity / 2,
            r.length == 0,
    {
        let r = DVec { buf: Buffer::new(capacity), offset: capacity / 2, length: 0 };
        proof {
            assert(r@ =~= Seq::<T>::empty());
        }
        r
    }

    pub fn capacity(&self) -> (r: usize)
        ensures
            r == self.spec_capacity(),
    {
        self.buf.capacity()
    }

    pub fn len(&self) -> (r: usize)
        ensures
            r == self@.len(),
    {
        self.length
    }

    /// Replace the buffer by a fresh one of `new_capacity` slots and relocate
    /// the live elements into it, re-centered, preserving their order. Each
    /// element is moved, not copied: the old buffer's slots are left
    /// uninitialized one by one, so releasing it finalizes nothing.
    ///
    /// Shrinking below the live element count is a contract violation, ruled
    /// out by the precondition rather than detected at run time.
    pub fn resize(&mut self, new_capacity: usize)
        requires
            old(self).wf(),
            new_capacity >= old(self).length,
        ensures
            final(self).wf(),
            final(self)@ == old(self)@,
            final(self).length == old(self).length,
            final(self).spec_capacity() == new_capacity,
            final(self).offset == (new_capacity - old(self).length) / 2,
    {
        let length = self.length;
        let old_offset = self.offset;
        let old_capacity = self.buf.capacity();
        let mut new_buf: Buffer<T> = Buffer::new(new_capacity);
        let new_offset = (new_capacity - length) / 2;
        let mut i: usize = 0;
        while i < length
            invariant
                i <= length,
                old(self).wf(),
                length == old(self).length,
                old_offset == old(self).offset,
                self.length == length,
                self.offset == old_offset,
                self.buf.spec_capacity() == old(self).buf.spec_capacity(),
                new_buf.spec_capacity() == new_capacity,
                new_offset == (new_capacity - length) / 2,
                new_offset + length <= new_capacity,
                old_offset + length <= old_capacity,
                old_capacity == self.buf.spec_capacity(),
                forall|j: int|
                    old_offset + i <= j < old(self).buf.spec_capacity()
                        ==> self.buf@[j] == old(self).buf@[j],
                forall|j: int|
                    0 <= j < i ==> #[trigger] new_buf@[new_offset + j] == old(self).buf@[old_offset
                        + j],
                forall|j: int|
                    0 <= j < new_capacity && !(new_offset <= j < new_offset + i)
                        ==> new_buf@[j] is None,
            decreases length - i,
        {
            let value = self.buf.take(old_offset + i);
            new_buf.put(new_offset + i, value);
            i = i + 1;
        }
        proof {
            assert forall|k: int|
                0 <= k < new_capacity implies (new_buf@[k] is Some <==> new_offset <= k
                < new_offset + length) by {
                if new_offset <= k < new_offset + length {
                    let j = k - new_offset;
                    assert(new_buf@[new_offset + j] == old(self).buf@[old_offset + j]);
                    assert(old(self).buf@[old_offset + j] is Some);
                }
            }
        }
        self.buf = new_buf;
        self.offset = new_offset;
        proof {
            assert(self@ =~= old(self)@);
        }
    }

    /// Insert `value` before the current front, growing the buffer when the
    /// front headroom is exhausted.
    ///
    /// The length bound is a machine limit: growth re-centers the window, so
    /// the grown capacity, about twice the length, must fit in `usize`.
    pub fn push_front(&mut self, value: T)
        requires
            old(self).wf(),
            old(self)@.len() < usize::MAX / 2,
        ensures
            final(self).wf(),
            final(self)@ == seq![value] + old(self)@,
            final(self)@.len() == old(self)@.len() + 1,
    {
        proof {
            self.buf.lemma_capacity_bound();
        }
        if self.capacity() == 0 {
            self.resize(1);
            self.offset = 1;
            proof {
                assert(self@ =~= old(self)@);
            }
        } else if self.offset == 0 {
            let c = self.capacity();
            let mut new_capacity = if c <= usize::MAX / 2 {
                c * 2
            } else {
                usize::MAX
            };
            if new_capacity - self.length <= 1 {
                // Doubling a full one-slot buffer would re-center the window
                // at offset 0 again; grow just past that so the front gains
                // headroom.
                new_capacity = self.length + 2;
            }
            self.resize(new_capacity);
        }
        let idx = self.offset - 1;
        self.buf.put(idx, value);
        self.offset = idx;
        self.length = self.length + 1;
        proof {
            assert(self@ =~= seq![value] + old(self)@);
        }
    }

    /// Append `value` after the current back, growing the buffer when the
    /// back headroom is exhausted.
    ///
    /// The length bound is a machine limit: growth re-centers the window, so
    /// the grown capacity, about twice the length, must fit in `usize`.
    pub fn push_back(&mut self, value: T)
        requires
            old(self).wf(),
            old(self)@.len() < usize::MAX / 2,
        ensures
            final(self).wf(),
            final(self)@ == old(self)@ + seq![value],
            final(self)@.len() == old(self)@.len() + 1,
    {
        proof {
            self.buf.lemma_capacity_bound();
        }
        if self.capacity() == 0 {
            self.resize(1);
            self.offset = 0;
            proof {
                assert(self@ =~= old(self)@);
            }
        }
        if self.offset + self.length == self.capacity() {
            let c = self.capacity();
            let new_capacity = if c <= usize::MAX / 2 {
                c * 2
            } else {
                usize::MAX
            };
            self.resize(new_capacity);
        }
        let idx = self.offset + self.length;
        self.buf.put(idx, value);
        self.length = self.length + 1;
        proof {
            assert(self@ =~= old(self)@ + seq![value]);
        }
    }

    /// Build a double-ended array from a contiguous one, adopting its
    /// elements in order: the window starts at slot 0 with no front headroom.
    pub fn from_vec(v: Vec<T>) -> (r: DVec<T>)
        ensures
            r.wf(),
            r@ == v@,
            r.offset == 0,
            r.length == v@.len(),
            r.spec_capacity() == v@.len(),
    {
        let ghost orig = v@;
        let mut v = v;
        let length = v.len();
        let mut slots: Vec<Option<T>> = Vec::new();
        while v.len() > 0
            invariant
                length == orig.len(),
                slots@.len() + v@.len() == length,
                forall|i: int| 0 <= i < slots@.len() ==> slots@[i] == Some(orig[i]),
                v@ == orig.skip(slots@.len() as int),
            decreases v@.len(),
        {
            let x = v.remove(0);
            slots.push(Some(x));
            proof {
                assert(v@ =~= orig.skip(slots@.len() as int));
            }
        }
        let r = DVec { buf: Buffer::from_raw_parts(slots), offset: 0, length };
        proof {
            assert(r@ =~= orig);
        }
        r
    }

    /// Build a double-ended array holding `n` clones of `value`, front to
    /// back.
    pub fn from_elem(value: T, n: usize) -> (r: DVec<T>) where T: Clone
        ensures
            r.wf(),
            r@.len() == n,
            forall|i: int| 0 <= i < n ==> cloned(value, #[trigger] r@[i]),
    {
        let v: Vec<T> = vec![value; n];
        DVec::from_vec(v)
    }

    /// Borrow logical element `i`, counted from the front.
    pub fn get(&self, i: usize) -> (r: &T)
        requires
            self.wf(),
            i < self@.len(),
        ensures
            *r == self@[i as int],
    {
        proof {
            self.buf.lemma_capacity_bound();
        }
        self.buf.read(self.offset + i)
    }
}

impl<T: PartialEq> DVec<T> {
    /// Two arrays are equal when they have the same length and, comparing
    /// front to back by logical index, every corresponding pair of elements
    /// is equal. Internal offset and capacity play no part in the comparison.
    pub fn eq(&self, other: &DVec<T>) -> (r: bool)
        requires
            self.wf(),
            other.wf(),
        ensures
            T::obeys_eq_spec() ==> r == elems_eq(self@, other@),
    {
        if self.len() != other.len() {
            return false;
        }
        let n = self.len();
        let mut i: usize = 0;
        while i < n
            invariant
                self.wf(),
                other.wf(),
                n == self@.len(),
                n == other@.len(),
                i <= n,
                T::obeys_eq_spec() ==> forall|j: int|
                    0 <= j < i ==> self@[j].eq_spec(&other@[j]),
            decreases n - i,
        {
            if !(*self.get(i) == *other.get(i)) {
                return false;
            }
            i = i + 1;
        }
        true
    }
}

/// The live window always fits inside the buffer: the length never exceeds
/// the capacity, and the window's end never passes it, whatever sequence of
/// operations produced the array.
pub proof fn lemma_window_in_bounds<T>(d: &DVec<T>)
    requires
        d.wf(),
    ensures
        d@.len() <= d.spec_capacity(),
        d.offset + d@.len() <= d.spec_capacity(),
{
}

/// Exactly the slots inside the live window hold values: destruction
/// finalizes each live element once, and an uninitialized slot, holding no
/// value, is never read or finalized.
pub proof fn lemma_live_slots<T>(d: &DVec<T>)
    requires
        d.wf(),
    ensures
        forall|i: int|
            0 <= i < d.spec_capacity() ==> (d.buf@[i] is Some <==> d.offset <= i < d.offset
                + d@.len()),
{
}

/// Two arrays with the same logical front-to-back sequence are equal under
/// the element-wise equality contract, whatever internal capacity and offset
/// the operation sequences that built them left behind, provided `T`'s
/// equality relation is reflexive.
pub proof fn lemma_eq_of_same_elements<T: PartialEq>(a: &DVec<T>, b: &DVec<T>)
    requires
        a@ == b@,
        forall|x: T| #[trigger] x.eq_spec(&x),
    ensures
        elems_eq(a@, b@),
{
    assert forall|i: int| 0 <= i < a@.len() implies a@[i].eq_spec(&b@[i]) by {
        assert(b@[i] == a@[i]);
    }
}

} // verus!
