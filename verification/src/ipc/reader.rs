//! Reading from memory.
use vstd::prelude::*;

verus! {

/// `std::io::Error::from(ErrorKind::UnexpectedEof)`: the error of a read past the
/// end. Nothing is said of it but that it is an error.
#[verifier::external_body]
fn unexpected_eof() -> std::io::Error {
    std::io::Error::from(std::io::ErrorKind::UnexpectedEof)
}

/// The bytes of `data` from `position` on; none, past the end.
pub open spec fn bytes_from(data: Seq<u8>, position: int) -> Seq<u8> {
    if position <= data.len() {
        data.subrange(position, data.len() as int)
    } else {
        Seq::empty()
    }
}

/// The first bytes of `bytes`, at most `limit` of them.
pub open spec fn at_most(bytes: Seq<u8>, limit: nat) -> Seq<u8> {
    if limit <= bytes.len() {
        bytes.subrange(0, limit as int)
    } else {
        bytes
    }
}

/// Bytes in memory, and the place of the next one to be read.
#[derive(Debug, Clone, Copy)]
pub struct ByteReader<'a> {
    pub data: &'a [u8],
    pub position: u64,
}

impl<'a> ByteReader<'a> {
    /// The bytes that are still to be read.
    pub open spec fn rest(self) -> Seq<u8> {
        bytes_from(self.data@, self.position as int)
    }

    /// Starts at the first byte.
    pub fn new(data: &'a [u8]) -> (r: Self)
        ensures
            r.data == data,
            r.position == 0,
            r.rest() == data@,
    {
        let r = ByteReader { data, position: 0 };
        assert(r.rest() =~= data@);
        r
    }

    /// Goes to the byte `position`, which may lie past the end.
    pub fn seek(&mut self, position: u64)
        ensures
            final(self).data == old(self).data,
            final(self).position == position,
    {
        self.position = position;
    }

    /// How many bytes are still to be read.
    fn remaining(&self) -> (r: usize)
        ensures
            r == self.rest().len(),
            r > 0 ==> self.position + r == self.data@.len() <= usize::MAX,
    {
        let total = self.data.len();
        match usize::try_from(self.position) {
            Ok(position) => if position <= total {
                total - position
            } else {
                0
            },
            Err(_) => 0,
        }
    }

    /// Fills `out` with the next bytes. Where there are too few, it reads none.
    pub fn read_exact(&mut self, out: &mut [u8]) -> (r: Result<(), std::io::Error>)
        ensures
            final(self).data == old(self).data,
            final(out)@.len() == old(out)@.len(),
            match r {
                Ok(_) => {
                    &&& old(out)@.len() <= old(self).rest().len()
                    &&& final(out)@ == old(self).rest().subrange(0, old(out)@.len() as int)
                    &&& final(self).position == old(self).position + old(out)@.len()
                },
                Err(_) => {
                    &&& old(out)@.len() > old(self).rest().len()
                    &&& final(out)@ == old(out)@
                    &&& final(self).position == old(self).position
                },
            },
    {
        let n = out.len();
        if n > self.remaining() {
            return Err(unexpected_eof());
        }
        if n == 0 {
            assert(out@ =~= self.rest().subrange(0, 0));
            return Ok(());
        }
        let start = self.position as usize;
        let mut i: usize = 0;
        while i < n
            invariant
                i <= n,
                n == out@.len() == old(out)@.len(),
                start == self.position,
                *self == *old(self),
                start + n <= self.data@.len() <= usize::MAX,
                n <= self.rest().len(),
                forall|k: int| 0 <= k < i ==> out@[k] == self.data@[start + k],
            decreases n - i,
        {
            out[i] = self.data[start + i];
            i = i + 1;
        }
        assert(out@ =~= self.rest().subrange(0, n as int));
        self.position = self.position + n as u64;
        Ok(())
    }

    /// Appends the next bytes to `out`, at most `limit` of them.
    pub fn read_at_most(&mut self, limit: usize, out: &mut Vec<u8>)
        ensures
            final(self).data == old(self).data,
            final(self).position == old(self).position + at_most(
                old(self).rest(),
                limit as nat,
            ).len(),
            final(out)@ == old(out)@ + at_most(old(self).rest(), limit as nat),
    {
        let remaining = self.remaining();
        let n = if limit <= remaining {
            limit
        } else {
            remaining
        };
        if n == 0 {
            assert(out@ =~= old(out)@ + at_most(self.rest(), limit as nat));
            return;
        }
        let start = self.position as usize;
        let mut i: usize = 0;
        while i < n
            invariant
                i <= n,
                start == self.position,
                *self == *old(self),
                start + n <= self.data@.len() <= usize::MAX,
                out@.len() == old(out)@.len() + i,
                forall|k: int| 0 <= k < old(out)@.len() ==> out@[k] == old(out)@[k],
                forall|k: int|
                    0 <= k < i ==> #[trigger] out@[old(out)@.len() + k] == self.data@[start + k],
            decreases n - i,
        {
            out.push(self.data[start + i]);
            i = i + 1;
        }
        proof {
            let all = old(out)@ + at_most(self.rest(), limit as nat);
            assert forall|k: int| 0 <= k < all.len() implies out@[k] == all[k] by {
                if k >= old(out)@.len() {
                    let j = k - old(out)@.len();
                    assert(out@[old(out)@.len() + j] == self.data@[start + j]);
                }
            }
            assert(out@ =~= all);
        }
        self.position = self.position + n as u64;
    }
}

} // verus!
