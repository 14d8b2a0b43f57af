use vstd::prelude::*;

use crate::error::DecodeError;

verus! {

/// The unsigned value of the two little-endian bytes at offset `i` of `b`.
pub open spec fn le16(b: Seq<u8>, i: int) -> int {
    b[i] + 256 * b[i + 1]
}

/// The unsigned value of the four little-endian bytes at offset `i` of `b`.
pub open spec fn le32(b: Seq<u8>, i: int) -> int {
    b[i] + 256 * b[i + 1] + 65536 * b[i + 2] + 16777216 * b[i + 3]
}

/// The two's-complement reading of an unsigned 32-bit value.
pub open spec fn signed32(u: int) -> int {
    if u < 0x8000_0000 {
        u
    } else {
        u - 0x1_0000_0000
    }
}

/// A byte stream consumed from front to back. All multi-byte fields of the
/// format are little-endian and fixed-width.
pub struct ByteStream {
    data: Vec<u8>,
    pos: usize,
}

impl ByteStream {
    /// The position never runs past the end of the data.
    pub closed spec fn wf(self) -> bool {
        self.pos <= self.data.len()
    }

    /// The bytes not yet consumed.
    pub closed spec fn remaining(self) -> Seq<u8> {
        self.data@.subrange(self.pos as int, self.data@.len() as int)
    }

    pub fn new(data: Vec<u8>) -> (s: Self)
        ensures
            s.wf(),
            s.remaining() == data@,
    {
        let s = ByteStream { data, pos: 0 };
        proof {
            assert(s.remaining() =~= s.data@);
        }
        s
    }

    pub fn is_empty(&self) -> (r: bool)
        requires
            self.wf(),
        ensures
            r == (self.remaining().len() == 0),
    {
        self.pos == self.data.len()
    }

    /// Consume two bytes as a little-endian unsigned 16-bit value.
    pub fn read_u16(&mut self) -> (r: Result<u16, DecodeError>)
        requires
            old(self).wf(),
        ensures
            final(self).wf(),
            match r {
                Ok(v) => old(self).remaining().len() >= 2 && v as int == le16(
                    old(self).remaining(),
                    0,
                ) && final(self).remaining() == old(self).remaining().subrange(
                    2,
                    old(self).remaining().len() as int,
                ),
                Err(e) => e is TruncatedInput && old(self).remaining().len() < 2 && *final(self) == *old(
                    self,
                ),
            },
    {
        if self.data.len() - self.pos >= 2 {
            let b0: u8 = self.data[self.pos];
            let b1: u8 = self.data[self.pos + 1];
            self.pos = self.pos + 2;
            let v: u16 = b0 as u16 + (b1 as u16) * 256;
            proof {
                assert(old(self).remaining()[0] == b0);
                assert(old(self).remaining()[1] == b1);
                assert(self.remaining() =~= old(self).remaining().subrange(
                    2,
                    old(self).remaining().len() as int,
                ));
            }
            Ok(v)
        } else {
            Err(DecodeError::TruncatedInput)
        }
    }

    pub fn remaining_len(&self) -> (n: usize)
        requires
            self.wf(),
        ensures
            n == self.remaining().len(),
    {
        self.data.len() - self.pos
    }

    /// Consume two bytes as a little-endian unsigned 16-bit value, on a
    /// stream already known to hold them.
    pub fn read_u16_exact(&mut self) -> (v: u16)
        requires
            old(self).wf(),
            old(self).remaining().len() >= 2,
        ensures
            final(self).wf(),
            v as int == le16(old(self).remaining(), 0),
            final(self).remaining() == old(self).remaining().subrange(
                2,
                old(self).remaining().len() as int,
            ),
    {
        let b0: u8 = self.data[self.pos];
        let b1: u8 = self.data[self.pos + 1];
        self.pos = self.pos + 2;
        let v: u16 = b0 as u16 + (b1 as u16) * 256;
        proof {
            assert(old(self).remaining()[0] == b0);
            assert(old(self).remaining()[1] == b1);
            assert(self.remaining() =~= old(self).remaining().subrange(
                2,
                old(self).remaining().len() as int,
            ));
        }
        v
    }

    /// Discard the next `n` bytes of a stream already known to hold them.
    pub fn skip_exact(&mut self, n: usize)
        requires
            old(self).wf(),
            old(self).remaining().len() >= n,
        ensures
            final(self).wf(),
            final(self).remaining() == old(self).remaining().subrange(
                n as int,
                old(self).remaining().len() as int,
            ),
    {
        self.pos = self.pos + n;
        proof {
            assert(self.remaining() =~= old(self).remaining().subrange(
                n as int,
                old(self).remaining().len() as int,
            ));
        }
    }

    /// Consume the next `n` bytes and hand them out.
    pub fn take(&mut self, n: usize) -> (r: Result<Vec<u8>, DecodeError>)
        requires
            old(self).wf(),
        ensures
            final(self).wf(),
            match r {
                Ok(v) => old(self).remaining().len() >= n && v@ == old(self).remaining().subrange(
                    0,
                    n as int,
                ) && final(self).remaining() == old(self).remaining().subrange(
                    n as int,
                    old(self).remaining().len() as int,
                ),
                Err(e) => e is TruncatedInput && old(self).remaining().len() < n && *final(self) == *old(
                    self,
                ),
            },
    {
        if self.data.len() - self.pos >= n {
            let mut v: Vec<u8> = Vec::new();
            let mut i: usize = 0;
            while i < n
                invariant
                    i <= n,
                    self.wf(),
                    self.data.len() - self.pos >= n,
                    v@.len() == i,
                    forall|j: int| 0 <= j < i ==> v@[j] == self.data@[self.pos + j],
                decreases n - i,
            {
                let b: u8 = self.data[self.pos + i];
                v.push(b);
                i = i + 1;
            }
            self.pos = self.pos + n;
            proof {
                assert(v@ =~= old(self).remaining().subrange(0, n as int));
                assert(self.remaining() =~= old(self).remaining().subrange(
                    n as int,
                    old(self).remaining().len() as int,
                ));
            }
            Ok(v)
        } else {
            Err(DecodeError::TruncatedInput)
        }
    }

}

} // verus!
