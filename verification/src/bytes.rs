//! A cursor over an in-memory byte buffer, with exact little-endian reads.
//!
//! Both container formats are sequences of little-endian fixed-width fields,
//! so every decoder in this crate works through this reader.  A read that
//! would run past the end of the buffer fails and leaves the cursor where it
//! was; a relative seek never fails and stops at the end of the buffer.

use vstd::prelude::*;

verus! {

/// The two-byte little-endian integer that starts at `pos`.
pub open spec fn le16_at(s: Seq<u8>, pos: int) -> nat {
    (s[pos] + 0x100 * s[pos + 1]) as nat
}

/// The four-byte little-endian integer that starts at `pos`.
pub open spec fn le32_at(s: Seq<u8>, pos: int) -> nat {
    (le16_at(s, pos) + 0x10000 * le16_at(s, pos + 2)) as nat
}

/// The eight-byte little-endian integer that starts at `pos`.
pub open spec fn le64_at(s: Seq<u8>, pos: int) -> nat {
    (le32_at(s, pos) + 0x100000000 * le32_at(s, pos + 4)) as nat
}

/// A byte buffer together with a cursor position.
pub struct ByteReader {
    data: Vec<u8>,
    pos: usize,
}

impl ByteReader {
    /// The whole underlying buffer.
    pub closed spec fn bytes(&self) -> Seq<u8> {
        self.data@
    }

    /// Where the next read starts.
    pub closed spec fn position(&self) -> int {
        self.pos as int
    }

    /// The cursor never lies past the end of the buffer.
    pub open spec fn wf(&self) -> bool {
        0 <= self.position() <= self.bytes().len()
    }

    pub fn new(data: Vec<u8>) -> (r: ByteReader)
        ensures
            r.wf(),
            r.bytes() == data@,
            r.position() == 0,
    {
        ByteReader { data, pos: 0 }
    }

    /// Gives the buffer back, dropping the cursor.
    pub fn into_data(self) -> (r: Vec<u8>)
        ensures
            r@ == self.bytes(),
    {
        self.data
    }

    /// A borrow of the whole buffer.
    pub fn buffer(&self) -> (r: &Vec<u8>)
        ensures
            r@ == self.bytes(),
    {
        &self.data
    }

    pub fn pos(&self) -> (r: usize)
        ensures
            r as int == self.position(),
    {
        self.pos
    }

    pub fn len(&self) -> (r: usize)
        ensures
            r as int == self.bytes().len(),
    {
        self.data.len()
    }

    /// Moves the cursor to `p`, or to the end of the buffer if `p` lies past it.
    pub fn set_position_clamped(&mut self, p: usize)
        requires
            old(self).wf(),
        ensures
            final(self).wf(),
            final(self).bytes() == old(self).bytes(),
            final(self).position() == if p as int <= old(self).bytes().len() {
                p as int
            } else {
                old(self).bytes().len() as int
            },
    {
        if p <= self.data.len() {
            self.pos = p;
        } else {
            self.pos = self.data.len();
        }
    }

    /// A relative seek: never fails, stops at the end of the buffer.
    pub fn skip(&mut self, n: usize)
        requires
            old(self).wf(),
        ensures
            final(self).wf(),
            final(self).bytes() == old(self).bytes(),
            final(self).position() == if old(self).position() + n <= old(self).bytes().len() {
                old(self).position() + n
            } else {
                old(self).bytes().len() as int
            },
    {
        if n <= self.data.len() - self.pos {
            self.pos = self.pos + n;
        } else {
            self.pos = self.data.len();
        }
    }

    pub fn read_u8(&mut self) -> (r: Option<u8>)
        requires
            old(self).wf(),
        ensures
            final(self).wf(),
            final(self).bytes() == old(self).bytes(),
            old(self).position() + 1 <= old(self).bytes().len() ==> {
                &&& r == Some(old(self).bytes()[old(self).position()])
                &&& final(self).position() == old(self).position() + 1
            },
            old(self).position() + 1 > old(self).bytes().len() ==> {
                &&& r is None
                &&& *final(self) == *old(self)
            },
    {
        if 1 <= self.data.len() - self.pos {
            let b = self.data[self.pos];
            self.pos = self.pos + 1;
            Some(b)
        } else {
            None
        }
    }

    pub fn read_u16_le(&mut self) -> (r: Option<u16>)
        requires
            old(self).wf(),
        ensures
            final(self).wf(),
            final(self).bytes() == old(self).bytes(),
            old(self).position() + 2 <= old(self).bytes().len() ==> {
                &&& r == Some(le16_at(old(self).bytes(), old(self).position()) as u16)
                &&& final(self).position() == old(self).position() + 2
            },
            old(self).position() + 2 > old(self).bytes().len() ==> {
                &&& r is None
                &&& *final(self) == *old(self)
            },
    {
        if 2 <= self.data.len() - self.pos {
            let b0 = self.data[self.pos];
            let b1 = self.data[self.pos + 1];
            self.pos = self.pos + 2;
            Some((b0 as u16) + 0x100 * (b1 as u16))
        } else {
            None
        }
    }

    pub fn read_u32_le(&mut self) -> (r: Option<u32>)
        requires
            old(self).wf(),
        ensures
            final(self).wf(),
            final(self).bytes() == old(self).bytes(),
            old(self).position() + 4 <= old(self).bytes().len() ==> {
                &&& r == Some(le32_at(old(self).bytes(), old(self).position()) as u32)
                &&& final(self).position() == old(self).position() + 4
            },
            old(self).position() + 4 > old(self).bytes().len() ==> {
                &&& r is None
                &&& *final(self) == *old(self)
            },
    {
        if 4 <= self.data.len() - self.pos {
            let b0 = self.data[self.pos];
            let b1 = self.data[self.pos + 1];
            let b2 = self.data[self.pos + 2];
            let b3 = self.data[self.pos + 3];
            self.pos = self.pos + 4;
            Some((b0 as u32) + 0x100 * (b1 as u32) + 0x10000 * (b2 as u32) + 0x1000000 * (
            b3 as u32))
        } else {
            None
        }
    }

    /// Reads four bytes as a little-endian value and reinterprets them as signed.
    pub fn read_i32_le(&mut self) -> (r: Option<i32>)
        requires
            old(self).wf(),
        ensures
            final(self).wf(),
            final(self).bytes() == old(self).bytes(),
            old(self).position() + 4 <= old(self).bytes().len() ==> {
                &&& r == Some(le32_at(old(self).bytes(), old(self).position()) as u32 as i32)
                &&& final(self).position() == old(self).position() + 4
            },
            old(self).position() + 4 > old(self).bytes().len() ==> {
                &&& r is None
                &&& *final(self) == *old(self)
            },
    {
        match self.read_u32_le() {
            Some(v) => Some(v as i32),
            None => None,
        }
    }

    pub fn read_u64_le(&mut self) -> (r: Option<u64>)
        requires
            old(self).wf(),
        ensures
            final(self).wf(),
            final(self).bytes() == old(self).bytes(),
            old(self).position() + 8 <= old(self).bytes().len() ==> {
                &&& r == Some(le64_at(old(self).bytes(), old(self).position()) as u64)
                &&& final(self).position() == old(self).position() + 8
            },
            old(self).position() + 8 > old(self).bytes().len() ==> {
                &&& r is None
                &&& *final(self) == *old(self)
            },
    {
        if 8 <= self.data.len() - self.pos {
            let lo = self.read_u32_le().unwrap();
            let hi = self.read_u32_le().unwrap();
            Some((lo as u64) + 0x100000000 * (hi as u64))
        } else {
            None
        }
    }

    /// Copies the next `n` bytes out of the buffer.
    pub fn read_bytes(&mut self, n: usize) -> (r: Option<Vec<u8>>)
        requires
            old(self).wf(),
        ensures
            final(self).wf(),
            final(self).bytes() == old(self).bytes(),
            old(self).position() + n <= old(self).bytes().len() ==> {
                &&& r is Some
                &&& r->0@ == old(self).bytes().subrange(
                    old(self).position(),
                    old(self).position() + n,
                )
                &&& final(self).position() == old(self).position() + n
            },
            old(self).position() + n > old(self).bytes().len() ==> {
                &&& r is None
                &&& *final(self) == *old(self)
            },
    {
        let total = self.data.len();
        if n <= total - self.pos {
            let mut out: Vec<u8> = Vec::new();
            let mut i: usize = 0;
            while i < n
                invariant
                    i <= n,
                    self.wf(),
                    total == self.data@.len(),
                    self.pos + n <= total,
                    out@ == self.data@.subrange(self.pos as int, self.pos + i),
                decreases n - i,
            {
                out.push(self.data[self.pos + i]);
                assert(out@ == self.data@.subrange(self.pos as int, self.pos + i + 1));
                i = i + 1;
            }
            self.pos = self.pos + n;
            Some(out)
        } else {
            None
        }
    }
}

} // verus!
