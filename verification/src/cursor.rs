//! The bounded byte cursor used by every codec in the crate.
//!
//! Reading walks a borrowed byte slice with a position that never passes the
//! slice's end; a read past the end fails with
//! [`SynthesisError::IoError`] and moves nothing.  Writing appends to a
//! caller-owned byte vector.  Both sides work the same with or without
//! dynamic allocation around them: the cursor itself allocates only for the
//! blocks it hands out.

use crate::bytes::{be_encode, be_value, u32_from_be_bytes, u32_to_be_bytes};
use crate::errors::SynthesisError;
use vstd::prelude::*;

verus! {

/// A read cursor over a bounded byte sequence: the data and a position.
pub struct ByteCursor<'a> {
    pub data: &'a [u8],
    pub pos: usize,
}

impl<'a> ByteCursor<'a> {
    /// The position never passes the end of the data.
    pub open spec fn wf(self) -> bool {
        self.pos as nat <= self.data@.len()
    }

    /// The whole underlying byte sequence.
    pub open spec fn spec_data(self) -> Seq<u8> {
        self.data@
    }

    /// The current read position.
    pub open spec fn spec_pos(self) -> nat {
        self.pos as nat
    }

    /// Opens a cursor at the start of `data`.
    pub fn new(data: &'a [u8]) -> (r: Self)
        ensures
            r.wf(),
            r.spec_data() == data@,
            r.spec_pos() == 0,
    {
        ByteCursor { data, pos: 0 }
    }

    /// Reads up to `n` bytes: all of them when enough remain, else
    /// whatever is left.
    pub fn read(&mut self, n: usize) -> (r: Vec<u8>)
        requires
            old(self).wf(),
        ensures
            final(self).wf(),
            final(self).spec_data() == old(self).spec_data(),
            r@.len() == vstd::math::min(n as int, old(self).spec_data().len() - old(
                self,
            ).spec_pos()),
            r@ == old(self).spec_data().subrange(
                old(self).spec_pos() as int,
                (old(self).spec_pos() + r@.len()) as int,
            ),
            final(self).spec_pos() == old(self).spec_pos() + r@.len(),
    {
        let remaining = self.data.len() - self.pos;
        let take = if n < remaining {
            n
        } else {
            remaining
        };
        let s = vstd::slice::slice_subrange(self.data, self.pos, self.pos + take);
        let block = vstd::slice::slice_to_vec(s);
        self.pos = self.pos + take;
        block
    }

    /// Reads exactly `n` bytes, or fails without moving when fewer remain.
    pub fn read_exact(&mut self, n: usize) -> (r: Result<Vec<u8>, SynthesisError>)
        requires
            old(self).wf(),
        ensures
            final(self).wf(),
            final(self).spec_data() == old(self).spec_data(),
            match r {
                Ok(block) => {
                    &&& old(self).spec_pos() + n <= old(self).spec_data().len()
                    &&& block@ == old(self).spec_data().subrange(
                        old(self).spec_pos() as int,
                        (old(self).spec_pos() + n) as int,
                    )
                    &&& block@.len() == n
                    &&& final(self).spec_pos() == old(self).spec_pos() + n
                },
                Err(e) => {
                    &&& e == SynthesisError::IoError
                    &&& old(self).spec_pos() + n > old(self).spec_data().len()
                    &&& final(self).spec_pos() == old(self).spec_pos()
                },
            },
    {
        if n > self.data.len() - self.pos {
            return Err(SynthesisError::IoError);
        }
        let s = vstd::slice::slice_subrange(self.data, self.pos, self.pos + n);
        let block = vstd::slice::slice_to_vec(s);
        self.pos = self.pos + n;
        Ok(block)
    }

    /// Reads a 4-byte big-endian unsigned integer, or fails without moving.
    pub fn read_u32_be(&mut self) -> (r: Result<u32, SynthesisError>)
        requires
            old(self).wf(),
        ensures
            final(self).wf(),
            final(self).spec_data() == old(self).spec_data(),
            match r {
                Ok(v) => {
                    &&& old(self).spec_pos() + 4 <= old(self).spec_data().len()
                    &&& v as nat == be_value(
                        old(self).spec_data().subrange(
                            old(self).spec_pos() as int,
                            (old(self).spec_pos() + 4) as int,
                        ),
                    )
                    &&& final(self).spec_pos() == old(self).spec_pos() + 4
                },
                Err(e) => {
                    &&& e == SynthesisError::IoError
                    &&& old(self).spec_pos() + 4 > old(self).spec_data().len()
                    &&& final(self).spec_pos() == old(self).spec_pos()
                },
            },
    {
        match self.read_exact(4) {
            Ok(block) => Ok(u32_from_be_bytes(block.as_slice())),
            Err(e) => Err(e),
        }
    }
}

/// Appends all of `buf` to `out`.
pub fn write_all(out: &mut Vec<u8>, buf: &[u8])
    ensures
        final(out)@ == old(out)@ + buf@,
{
    let mut i: usize = 0;
    while i < buf.len()
        invariant
            i <= buf@.len(),
            out@ == old(out)@ + buf@.take(i as int),
        decreases buf@.len() - i,
    {
        out.push(*vstd::slice::slice_index_get(buf, i));
        i = i + 1;
        proof {
            assert(out@ =~= old(out)@ + buf@.take(i as int));
        }
    }
    proof {
        assert(old(out)@ + buf@.take(buf@.len() as int) =~= old(out)@ + buf@);
    }
}

/// Appends the 4-byte big-endian encoding of `n` to `out`.
pub fn write_u32_be(out: &mut Vec<u8>, n: u32)
    ensures
        final(out)@ == old(out)@ + be_encode(n as nat, 4),
{
    let bytes = u32_to_be_bytes(n);
    write_all(out, bytes.as_slice());
}

} // verus!
