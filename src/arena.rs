//! The exchange buffer through which the host writes results and the contract
//! writes parameters, reused from call to call.
//!
//! The buffer is an explicit handle: whoever owns it decides when it is resized
//! or released. Each allocation gets a new ghost generation number, so that
//! contracts can say when the backing storage stays the same and when it is
//! replaced.

use vstd::prelude::*;

verus! {

/// What a buffer is: its reserved size, what has been copied into it, the
/// allocation it lives in, and whether it holds storage at all.
pub struct VecBoxView<T> {
    pub capacity: nat,
    pub contents: Seq<T>,
    pub generation: nat,
    pub live: bool,
}

/// A reusable buffer of `T` with a fixed reserved size.
pub struct VecBox<T> {
    data: Vec<T>,
    capacity: usize,
    live: bool,
    generation: Ghost<nat>,
}

impl<T> View for VecBox<T> {
    type V = VecBoxView<T>;

    closed spec fn view(&self) -> VecBoxView<T> {
        VecBoxView {
            capacity: self.capacity as nat,
            contents: self.data@,
            generation: self.generation@,
            live: self.live,
        }
    }
}

/// The buffer after a request for `capacity`: the same one when it is live with
/// that size, otherwise a new, empty allocation of that size.
pub open spec fn after_request<T>(v: VecBoxView<T>, capacity: nat) -> VecBoxView<T> {
    if v.live && v.capacity == capacity {
        v
    } else {
        VecBoxView { capacity, contents: Seq::empty(), generation: v.generation + 1, live: true }
    }
}

/// Error text: the data does not fit the reserved size.
pub const ERR_OVERFLOW: &'static str = "Vec size overflow";

impl<T: Copy> VecBox<T> {
    /// A buffer with `capacity` elements reserved and nothing in it.
    pub fn new(capacity: usize) -> (r: VecBox<T>)
        ensures
            r@.capacity == capacity,
            r@.contents == Seq::<T>::empty(),
            r@.live,
            r@.generation == 0,
    {
        VecBox { data: Vec::with_capacity(capacity), capacity, live: true, generation: Ghost(0) }
    }

    /// Releases the storage, then reserves `capacity` elements in a new allocation.
    pub fn reset_data_size(&mut self, capacity: usize)
        ensures
            final(self)@.capacity == capacity,
            final(self)@.contents == Seq::<T>::empty(),
            final(self)@.live,
            final(self)@.generation == old(self)@.generation + 1,
    {
        self.deallocated();
        self.data = Vec::with_capacity(capacity);
        self.capacity = capacity;
        self.live = true;
        self.generation = Ghost(old(self).generation@ + 1);
    }

    /// Keeps the buffer when it already has `capacity` reserved; otherwise
    /// releases it and allocates one of `capacity`.
    pub fn get_or_create(&mut self, capacity: usize)
        ensures
            final(self)@ == after_request(old(self)@, capacity as nat),
    {
        if !(self.live && self.capacity == capacity) {
            self.reset_data_size(capacity);
            assert(final(self)@.contents =~= Seq::<T>::empty());
        }
    }

    /// Releases the storage; nothing is reserved afterwards.
    pub fn deallocated(&mut self)
        ensures
            final(self)@.capacity == 0,
            final(self)@.contents == Seq::<T>::empty(),
            !final(self)@.live,
            final(self)@.generation == old(self)@.generation,
    {
        self.data = Vec::new();
        self.capacity = 0;
        self.live = false;
    }

    /// Releases the storage, as `deallocated` does.
    pub fn drop(&mut self)
        ensures
            final(self)@.capacity == 0,
            final(self)@.contents == Seq::<T>::empty(),
            !final(self)@.live,
            final(self)@.generation == old(self)@.generation,
    {
        self.deallocated();
    }

    /// The elements copied in so far.
    pub fn data_as_mut(&mut self) -> (r: &Vec<T>)
        ensures
            r@ == old(self)@.contents,
            final(self)@ == old(self)@,
    {
        &self.data
    }

    /// Appends `vec` when it fits the reserved size, and says how many elements
    /// were written; fails with `ERR_OVERFLOW` otherwise.
    pub fn copy(&mut self, vec: &Vec<T>) -> (r: Result<usize, &'static str>)
        ensures
            vec@.len() <= old(self)@.capacity ==> {
                &&& r == Ok::<usize, &'static str>(vec@.len() as usize)
                &&& final(self)@.contents == old(self)@.contents + vec@
                &&& final(self)@.capacity == old(self)@.capacity
                &&& final(self)@.generation == old(self)@.generation
                &&& final(self)@.live == old(self)@.live
            },
            vec@.len() > old(self)@.capacity ==> r == Err::<usize, &'static str>(ERR_OVERFLOW)
                && final(self)@ == old(self)@,
    {
        let size = vec.len();
        if self.capacity >= size {
            let ghost start = self.data@;
            let mut i: usize = 0;
            while i < size
                invariant
                    size == vec@.len(),
                    i <= size,
                    self.data@ == start + vec@.subrange(0, i as int),
                    self.capacity == old(self).capacity,
                    self.live == old(self).live,
                    self.generation == old(self).generation,
                decreases size - i,
            {
                self.data.push(vec[i]);
                i = i + 1;
                assert(self.data@ =~= start + vec@.subrange(0, i as int));
            }
            assert(vec@.subrange(0, size as int) =~= vec@);
            Ok(size)
        } else {
            Err(ERR_OVERFLOW)
        }
    }

    /// The reserved size.
    pub fn len(&mut self) -> (r: usize)
        ensures
            r == old(self)@.capacity,
            final(self)@ == old(self)@,
    {
        self.capacity
    }

    /// The elements copied in so far.
    pub fn value(&mut self) -> (r: &Vec<T>)
        ensures
            r@ == old(self)@.contents,
            final(self)@ == old(self)@,
    {
        &self.data
    }
}

/// Reuse: asking twice for the same size keeps the buffer of the first request,
/// allocation included; asking next for another size gives a new allocation of
/// that size, empty.
pub proof fn lemma_reuse<T>(v: VecBoxView<T>, capacity: nat, other: nat)
    ensures
        after_request(after_request(v, capacity), capacity) == after_request(v, capacity),
        other != capacity ==> {
            let first = after_request(v, capacity);
            let second = after_request(first, other);
            &&& second.generation != first.generation
            &&& second.capacity == other
            &&& second.contents == Seq::<T>::empty()
        },
{
}

} // verus!
