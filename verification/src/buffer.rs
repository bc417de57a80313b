//! Shared, immutable slices of memory.
use std::sync::Arc;
use vstd::prelude::*;

use crate::datatypes::share;

verus! {

/// A slice of shared memory: `length` values from `offset` on.
#[derive(Debug)]
pub struct Buffer<T> {
    pub data: Arc<Vec<T>>,
    pub offset: usize,
    pub length: usize,
}

impl<T> Buffer<T> {
    /// The slice lies within the memory.
    pub open spec fn wf(self) -> bool {
        self.offset + self.length <= self.data@.len()
    }

    /// Uses the first `length` values of the memory.
    pub fn from_memory(data: &Arc<Vec<T>>, length: usize) -> (r: Self)
        requires
            length <= data@.len(),
        ensures
            r.wf(),
            r == (Buffer { data: *data, offset: 0, length }),
            r@ == data@.subrange(0, length as int),
    {
        Buffer { data: share(data), offset: 0, length }
    }

    /// The number of values
    pub fn len(&self) -> (r: usize)
        requires
            self.wf(),
        ensures
            r == self@.len(),
            r == self.length,
    {
        self.length
    }

    /// The value at `index`
    pub fn get(&self, index: usize) -> (r: &T)
        requires
            self.wf(),
            index < self@.len(),
        ensures
            *r == self@[index as int],
    {
        assert((*self.data).len() == self.data@.len());
        &self.data[self.offset + index]
    }

    /// Narrows this slice to `length` values from `offset` on.
    pub fn slice(self, offset: usize, length: usize) -> (r: Self)
        requires
            self.wf(),
            offset + length <= self@.len(),
        ensures
            r.wf(),
            r == (Buffer { data: self.data, offset: (self.offset + offset) as usize, length }),
            r@ == self@.subrange(offset as int, offset + length),
    {
        assert((*self.data).len() == self.data@.len());
        let r = Buffer { data: self.data, offset: self.offset + offset, length };
        assert(r@ =~= self@.subrange(offset as int, offset + length));
        r
    }

    /// Another handle on the same slice.
    pub fn share(&self) -> (r: Self)
        ensures
            r == *self,
    {
        Buffer { data: share(&self.data), offset: self.offset, length: self.length }
    }
}

impl<T> View for Buffer<T> {
    type V = Seq<T>;

    open spec fn view(&self) -> Seq<T> {
        self.data@.subrange(self.offset as int, self.offset + self.length)
    }
}

/// Takes all of `values`.
pub fn buffer_from_vec<T>(values: Vec<T>) -> (r: Buffer<T>)
    ensures
        r.wf(),
        r@ == values@,
        r.offset == 0,
        r.length == values@.len(),
{
    let length = values.len();
    let r = Buffer { data: Arc::new(values), offset: 0, length };
    assert(r@ =~= values@);
    r
}

/// Value `i` of a buffer is value `offset + i` of its memory, and a buffer lies within its
/// memory when it ends there.
pub proof fn law_buffer_is_a_slice<T>(buffer: Buffer<T>, i: int)
    ensures
        buffer.wf() <==> buffer.offset + buffer.length <= buffer.data@.len(),
        buffer.wf() ==> buffer@.len() == buffer.length,
        buffer.wf() && 0 <= i < buffer.length ==> buffer@[i] == buffer.data@[buffer.offset + i],
{
}

} // verus!
