//! FIFO byte buffer with detachable backing storage.
//!
//! The buffer keeps its readable bytes contiguous by construction: appends go
//! to the back of the backing vector and consuming from the front drops a
//! prefix. The backing storage can be taken out (leaving the buffer unusable
//! until storage is installed again) and two buffers can swap their whole
//! contents, which is how parsed-header storage is handed between phases.

use vstd::prelude::*;

verus! {

pub struct VecRingBuffer {
    inner: Option<Vec<u8>>,
    cap: usize,
}

impl VecRingBuffer {
    /// Readable bytes, oldest first.
    pub closed spec fn readable(self) -> Seq<u8> {
        match self.inner {
            Some(v) => v@,
            None => Seq::empty(),
        }
    }

    /// Whether the buffer currently owns backing storage.
    pub closed spec fn has_inner(self) -> bool {
        self.inner is Some
    }

    pub closed spec fn capacity_spec(self) -> nat {
        self.cap as nat
    }

    /// The readable bytes never exceed the capacity.
    pub closed spec fn wf(self) -> bool {
        self.readable().len() <= self.cap
    }

    pub fn new(capacity: usize) -> (r: Self)
        ensures
            r.wf(),
            r.has_inner(),
            r.readable() == Seq::<u8>::empty(),
            r.capacity_spec() == capacity,
    {
        VecRingBuffer { inner: Some(Vec::new()), cap: capacity }
    }

    pub fn capacity(&self) -> (r: usize)
        ensures
            r == self.capacity_spec(),
    {
        self.cap
    }

    pub fn len(&self) -> (r: usize)
        ensures
            r == self.readable().len(),
    {
        match &self.inner {
            Some(v) => v.len(),
            None => 0,
        }
    }

    /// Room left for appended bytes.
    pub fn free_space(&self) -> (r: usize)
        requires
            self.wf(),
            self.has_inner(),
        ensures
            r == self.capacity_spec() - self.readable().len(),
    {
        self.cap - self.inner.as_ref().unwrap().len()
    }

    /// Append as much of `src` as fits; the prefix taken is returned.
    pub fn write(&mut self, src: &[u8]) -> (r: usize)
        requires
            old(self).wf(),
            old(self).has_inner(),
        ensures
            final(self).wf(),
            final(self).has_inner(),
            final(self).capacity_spec() == old(self).capacity_spec(),
            r == if src@.len() <= old(self).capacity_spec() - old(self).readable().len() {
                src@.len() as int
            } else {
                old(self).capacity_spec() - old(self).readable().len()
            },
            final(self).readable() == old(self).readable() + src@.take(r as int),
    {
        let v = self.inner.as_mut().unwrap();
        let avail = self.cap - v.len();
        let n = if src.len() <= avail { src.len() } else { avail };
        let part = vstd::slice::slice_subrange(src, 0, n);
        v.extend_from_slice(part);
        proof {
            assert(self.readable() =~= old(self).readable() + src@.take(n as int));
        }
        n
    }

    /// Append all of `src`, or change nothing and report failure.
    pub fn write_all(&mut self, src: &[u8]) -> (r: Result<(), ()>)
        requires
            old(self).wf(),
            old(self).has_inner(),
        ensures
            final(self).wf(),
            final(self).has_inner(),
            final(self).capacity_spec() == old(self).capacity_spec(),
            r is Ok <==> old(self).readable().len() + src@.len() <= old(self).capacity_spec(),
            r is Ok ==> final(self).readable() == old(self).readable() + src@,
            r is Err ==> final(self).readable() == old(self).readable(),
    {
        let v = self.inner.as_mut().unwrap();
        if src.len() <= self.cap - v.len() {
            v.extend_from_slice(src);
            proof {
                assert(self.readable() =~= old(self).readable() + src@);
            }
            Ok(())
        } else {
            Err(())
        }
    }

    /// Drop the first `n` readable bytes.
    pub fn read_commit(&mut self, n: usize)
        requires
            old(self).wf(),
            old(self).has_inner(),
            n <= old(self).readable().len(),
        ensures
            final(self).wf(),
            final(self).has_inner(),
            final(self).capacity_spec() == old(self).capacity_spec(),
            final(self).readable() == old(self).readable().skip(n as int),
    {
        let v = self.inner.as_mut().unwrap();
        let tail = v.split_off(n);
        *v = tail;
        proof {
            assert(self.readable() =~= old(self).readable().skip(n as int));
        }
    }

    /// Contiguous view of the readable bytes.
    pub fn read_buf(&self) -> (r: &[u8])
        requires
            self.has_inner(),
        ensures
            r@ == self.readable(),
    {
        self.inner.as_ref().unwrap().as_slice()
    }

    pub fn clear(&mut self)
        requires
            old(self).wf(),
            old(self).has_inner(),
        ensures
            final(self).wf(),
            final(self).has_inner(),
            final(self).capacity_spec() == old(self).capacity_spec(),
            final(self).readable() == Seq::<u8>::empty(),
    {
        self.inner.as_mut().unwrap().clear();
    }

    /// Detach the backing storage, leaving the buffer storage-less.
    pub fn take_inner(&mut self) -> (r: Vec<u8>)
        requires
            old(self).wf(),
            old(self).has_inner(),
        ensures
            final(self).wf(),
            !final(self).has_inner(),
            final(self).capacity_spec() == old(self).capacity_spec(),
            r@ == old(self).readable(),
            final(self).readable() == Seq::<u8>::empty(),
    {
        self.inner.take().unwrap()
    }

    /// Install backing storage into a storage-less buffer. The installed
    /// bytes become the readable region; the capacity grows if needed.
    pub fn set_inner(&mut self, v: Vec<u8>)
        requires
            old(self).wf(),
            !old(self).has_inner(),
        ensures
            final(self).wf(),
            final(self).has_inner(),
            final(self).readable() == v@,
            final(self).capacity_spec() == if v@.len() > old(self).capacity_spec() {
                v@.len()
            } else {
                old(self).capacity_spec()
            },
    {
        if v.len() > self.cap {
            self.cap = v.len();
        }
        self.inner = Some(v);
    }

    /// Exchange the entire contents (storage, readable bytes and capacity)
    /// with another buffer.
    pub fn swap_inner(&mut self, other: &mut VecRingBuffer)
        ensures
            *final(self) == *old(other),
            *final(other) == *old(self),
    {
        core::mem::swap(self, other);
    }

    /// Grow the capacity to `new_cap`.
    pub fn expand(&mut self, new_cap: usize)
        requires
            old(self).wf(),
            new_cap >= old(self).capacity_spec(),
        ensures
            final(self).wf(),
            final(self).has_inner() == old(self).has_inner(),
            final(self).readable() == old(self).readable(),
            final(self).capacity_spec() == new_cap,
    {
        self.cap = new_cap;
    }
}

/// A well-formed buffer's readable bytes fit its capacity, and the capacity
/// fits the machine word.
pub proof fn lemma_buffer_bounds(b: VecRingBuffer)
    requires
        b.wf(),
    ensures
        b.readable().len() <= b.capacity_spec(),
        b.capacity_spec() <= usize::MAX,
{
}

} // verus!
