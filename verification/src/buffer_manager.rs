//! Bounded pool of reusable sample buffers.
//!
//! The pool is a fixed-capacity stack: at most [`POOL_CAPACITY`] buffers are
//! ever held, a buffer handed out is owned by the caller until it is given
//! back, and a buffer handed out is always zero-filled to the exact requested
//! length. The element type is generic so that the pool's bookkeeping is
//! independent of the sample representation; the zero element is fixed at
//! construction.

use vstd::prelude::*;

verus! {

/// Largest number of buffers the pool ever holds.
pub const POOL_CAPACITY: usize = 4;

/// Fixed-capacity stack of reusable buffers, each pre-sized at construction.
pub struct BufferManager<T> {
    buffer_pool: Vec<Vec<T>>,
    buffer_size: usize,
    zero: T,
}

impl<T: Copy> BufferManager<T> {
    /// The pool never holds more than `POOL_CAPACITY` buffers.
    pub closed spec fn wf(&self) -> bool {
        self.buffer_pool@.len() <= POOL_CAPACITY
    }

    /// Number of buffers currently held.
    pub closed spec fn pool_len(&self) -> int {
        self.buffer_pool@.len() as int
    }

    /// The element a fresh buffer is filled with.
    pub closed spec fn zero_sample(&self) -> T {
        self.zero
    }

    /// The pre-allocation size chosen at construction.
    pub closed spec fn pre_size(&self) -> int {
        self.buffer_size as int
    }

    /// A buffer of `len` copies of `zero`.
    fn filled_buffer(zero: T, len: usize) -> (buf: Vec<T>)
        ensures
            buf@.len() == len,
            forall|i: int| 0 <= i < len ==> buf@[i] == zero,
    {
        let mut buf: Vec<T> = Vec::new();
        while buf.len() < len
            invariant
                buf@.len() <= len,
                forall|i: int| 0 <= i < buf@.len() ==> buf@[i] == zero,
            decreases len - buf@.len(),
        {
            buf.push(zero);
        }
        buf
    }

    /// Creates a pool holding `POOL_CAPACITY` buffers of `buffer_size` copies
    /// of `zero` each.
    pub fn new(buffer_size: usize, zero: T) -> (m: Self)
        ensures
            m.wf(),
            m.pool_len() == POOL_CAPACITY,
            m.pre_size() == buffer_size,
            m.zero_sample() == zero,
    {
        let mut pool: Vec<Vec<T>> = Vec::new();
        while pool.len() < POOL_CAPACITY
            invariant
                pool@.len() <= POOL_CAPACITY,
            decreases POOL_CAPACITY - pool@.len(),
        {
            pool.push(Self::filled_buffer(zero, buffer_size));
        }
        BufferManager { buffer_pool: pool, buffer_size, zero }
    }

    /// Takes a buffer out of the pool (or allocates one on a pool miss) and
    /// hands it out zero-filled to exactly `size` elements. Ownership passes
    /// to the caller until the buffer is given back.
    pub fn get_buffer(&mut self, size: usize) -> (buf: Vec<T>)
        requires
            old(self).wf(),
        ensures
            final(self).wf(),
            buf@.len() == size,
            forall|i: int| 0 <= i < size ==> buf@[i] == old(self).zero_sample(),
            final(self).zero_sample() == old(self).zero_sample(),
            final(self).pre_size() == old(self).pre_size(),
            final(self).pool_len() == if old(self).pool_len() > 0 {
                old(self).pool_len() - 1
            } else {
                0int
            },
    {
        let mut buffer: Vec<T> = if self.buffer_pool.len() == 0 {
            Vec::new()
        } else {
            self.buffer_pool.pop().unwrap()
        };
        buffer.clear();
        while buffer.len() < size
            invariant
                buffer@.len() <= size,
                forall|i: int| 0 <= i < buffer@.len() ==> buffer@[i] == self.zero,
            decreases size - buffer@.len(),
        {
            buffer.push(self.zero);
        }
        buffer
    }

    /// Gives a buffer back. It is kept for reuse only while the pool is below
    /// capacity; otherwise it is dropped.
    pub fn return_buffer(&mut self, buffer: Vec<T>)
        requires
            old(self).wf(),
        ensures
            final(self).wf(),
            final(self).zero_sample() == old(self).zero_sample(),
            final(self).pre_size() == old(self).pre_size(),
            final(self).pool_len() == if old(self).pool_len() < POOL_CAPACITY {
                old(self).pool_len() + 1
            } else {
                old(self).pool_len()
            },
    {
        if self.buffer_pool.len() < POOL_CAPACITY {
            self.buffer_pool.push(buffer);
        }
    }

    /// Number of buffers currently held; never exceeds `POOL_CAPACITY`.
    pub fn pool_size(&self) -> (n: usize)
        requires
            self.wf(),
        ensures
            n == self.pool_len(),
            n <= POOL_CAPACITY,
    {
        self.buffer_pool.len()
    }

    /// The pre-allocation size chosen at construction.
    pub fn buffer_size(&self) -> (n: usize)
        ensures
            n == self.pre_size(),
    {
        self.buffer_size
    }
}

} // verus!
