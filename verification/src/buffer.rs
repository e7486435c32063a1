//! A bounded cursor over an owned byte vector, with big-endian codecs for
//! every multi-byte width the stack reads or writes.  All reads fail with an
//! end-of-input error when too few bytes remain; writes append at the end.

use vstd::prelude::*;
use crate::error::Error;

verus! {

broadcast use vstd::std_specs::vec::axiom_spec_len;

/// The view of a vector is never longer than usize::MAX.
proof fn lemma_len_bound(v: &Vec<u8>)
    ensures
        v@.len() <= usize::MAX,
{
    assert(vstd::std_specs::vec::spec_vec_len(v) == v@.len());
}

pub struct ByteBuffer {
    buffer: Vec<u8>,
    cursor: usize,
}

impl ByteBuffer {
    /// The bytes held by the buffer.
    pub closed spec fn bytes(self) -> Seq<u8> {
        self.buffer@
    }

    /// The cursor position, always within the buffer.
    pub closed spec fn pos(self) -> int {
        self.cursor as int
    }

    /// The cursor never runs past the end of the buffer.
    pub open spec fn wf(self) -> bool {
        0 <= self.pos() <= self.bytes().len()
    }

    /// Create a new ByteBuffer holding the given bytes, cursor at the start.
    pub fn new(data: Vec<u8>) -> (r: ByteBuffer)
        ensures
            r.wf(),
            r.bytes() == data@,
            r.pos() == 0,
    {
        ByteBuffer { buffer: data, cursor: 0 }
    }

    /// Create an empty ByteBuffer with the given capacity.
    pub fn with_capacity(capacity: usize) -> (r: ByteBuffer)
        ensures
            r.wf(),
            r.bytes() == Seq::<u8>::empty(),
            r.pos() == 0,
    {
        ByteBuffer { buffer: Vec::with_capacity(capacity), cursor: 0 }
    }

    /// Get the current cursor position.
    pub fn position(&self) -> (r: usize)
        ensures
            r == self.pos(),
    {
        self.cursor
    }

    /// Set the cursor position; fails when it would leave the buffer.
    pub fn set_position(&mut self, pos: usize) -> (r: Result<(), Error>)
        requires
            old(self).wf(),
        ensures
            final(self).bytes() == old(self).bytes(),
            r is Ok <==> pos <= old(self).bytes().len(),
            r is Ok ==> final(self).pos() == pos,
            r is Err ==> final(self).pos() == old(self).pos() && r->Err_0 is Io,
    {
        if pos > self.buffer.len() {
            return Err(Error::io("Position out of bounds"));
        }
        self.cursor = pos;
        Ok(())
    }

    /// The number of bytes between the cursor and the end.
    pub fn remaining(&self) -> (r: usize)
        requires
            self.wf(),
        ensures
            r == self.bytes().len() - self.pos(),
    {
        self.buffer.len() - self.cursor
    }

    /// Whether at least n bytes remain past the cursor.
    pub fn has_remaining(&self, n: usize) -> (r: bool)
        requires
            self.wf(),
        ensures
            r <==> self.pos() + n <= self.bytes().len(),
    {
        self.remaining() >= n
    }

    /// Read len bytes at the cursor and advance past them.
    pub fn read_bytes(&mut self, len: usize) -> (r: Result<Vec<u8>, Error>)
        requires
            old(self).wf(),
        ensures
            final(self).wf(),
            final(self).bytes() == old(self).bytes(),
            r is Ok <==> old(self).pos() + len <= old(self).bytes().len(),
            r is Ok ==> {
                &&& r->Ok_0@ == old(self).bytes().subrange(
                    old(self).pos(),
                    old(self).pos() + len,
                )
                &&& final(self).pos() == old(self).pos() + len
            },
            r is Err ==> final(self).pos() == old(self).pos() && r->Err_0 is Io,
    {
        if !self.has_remaining(len) {
            return Err(Error::io("Not enough bytes"));
        }
        proof {
            lemma_len_bound(&self.buffer);
        }
        let mut out: Vec<u8> = Vec::with_capacity(len);
        let mut i: usize = 0;
        while i < len
            invariant
                self == old(self),
                self.wf(),
                i <= len,
                self.pos() + len <= self.bytes().len(),
                self.bytes().len() <= usize::MAX,
                out@ == self.bytes().subrange(self.pos(), self.pos() + i),
            decreases len - i,
        {
            out.push(self.buffer[self.cursor + i]);
            i = i + 1;
            proof {
                assert(out@ =~= self.bytes().subrange(self.pos(), self.pos() + i));
            }
        }
        self.cursor = self.cursor + len;
        Ok(out)
    }

    /// Append the given bytes to the buffer.
    pub fn write_bytes(&mut self, data: &[u8]) -> (r: Result<(), Error>)
        requires
            old(self).wf(),
        ensures
            final(self).wf(),
            r is Ok,
            final(self).bytes() == old(self).bytes() + data@,
            final(self).pos() == old(self).pos(),
    {
        let mut i: usize = 0;
        while i < data.len()
            invariant
                self.wf(),
                i <= data@.len(),
                self.cursor == old(self).cursor,
                self.bytes() == old(self).bytes() + data@.subrange(0, i as int),
            decreases data@.len() - i,
        {
            self.buffer.push(data[i]);
            i = i + 1;
            proof {
                assert(self.bytes() =~= old(self).bytes() + data@.subrange(0, i as int));
            }
        }
        proof {
            assert(data@.subrange(0, data@.len() as int) =~= data@);
        }
        Ok(())
    }

    /// Read one byte and advance.
    pub fn read_u8(&mut self) -> (r: Result<u8, Error>)
        requires
            old(self).wf(),
        ensures
            final(self).wf(),
            final(self).bytes() == old(self).bytes(),
            r is Ok <==> old(self).pos() + 1 <= old(self).bytes().len(),
            r is Ok ==> {
                &&& r->Ok_0 == old(self).bytes()[old(self).pos()]
                &&& final(self).pos() == old(self).pos() + 1
            },
            r is Err ==> final(self).pos() == old(self).pos() && r->Err_0 is Io,
    {
        if !self.has_remaining(1) {
            return Err(Error::io("Not enough bytes"));
        }
        proof {
            lemma_len_bound(&self.buffer);
        }
        let value = self.buffer[self.cursor];
        self.cursor = self.cursor + 1;
        Ok(value)
    }

    /// Append one byte.
    pub fn write_u8(&mut self, value: u8) -> (r: Result<(), Error>)
        requires
            old(self).wf(),
        ensures
            final(self).wf(),
            r is Ok,
            final(self).bytes() == old(self).bytes().push(value),
            final(self).pos() == old(self).pos(),
    {
        self.buffer.push(value);
        Ok(())
    }

    /// Read a big-endian u16 and advance.
    pub fn read_u16_be(&mut self) -> (r: Result<u16, Error>)
        requires
            old(self).wf(),
        ensures
            final(self).wf(),
            final(self).bytes() == old(self).bytes(),
            r is Ok <==> old(self).pos() + 2 <= old(self).bytes().len(),
            r is Ok ==> {
                &&& r->Ok_0 == be16(old(self).bytes(), old(self).pos())
                &&& final(self).pos() == old(self).pos() + 2
            },
            r is Err ==> final(self).pos() == old(self).pos() && r->Err_0 is Io,
    {
        if !self.has_remaining(2) {
            return Err(Error::io("Not enough bytes"));
        }
        proof {
            lemma_len_bound(&self.buffer);
        }
        let b0 = self.buffer[self.cursor];
        let b1 = self.buffer[self.cursor + 1];
        self.cursor = self.cursor + 2;
        Ok((b0 as u16) * 256 + (b1 as u16))
    }

    /// Append a u16 as two big-endian bytes.
    pub fn write_u16_be(&mut self, value: u16) -> (r: Result<(), Error>)
        requires
            old(self).wf(),
        ensures
            final(self).wf(),
            r is Ok,
            final(self).bytes() == old(self).bytes() + be16_bytes(value),
            final(self).pos() == old(self).pos(),
    {
        self.buffer.push((value / 256) as u8);
        self.buffer.push((value % 256) as u8);
        proof {
            assert(self.bytes() =~= old(self).bytes() + be16_bytes(value));
        }
        Ok(())
    }

    /// Read a big-endian i16 (the same two bytes, reinterpreted) and advance.
    pub fn read_i16_be(&mut self) -> (r: Result<i16, Error>)
        requires
            old(self).wf(),
        ensures
            final(self).wf(),
            final(self).bytes() == old(self).bytes(),
            r is Ok <==> old(self).pos() + 2 <= old(self).bytes().len(),
            r is Ok ==> {
                &&& r->Ok_0 == be16(old(self).bytes(), old(self).pos()) as i16
                &&& final(self).pos() == old(self).pos() + 2
            },
            r is Err ==> final(self).pos() == old(self).pos() && r->Err_0 is Io,
    {
        let v = self.read_u16_be()?;
        Ok(#[verifier::truncate] (v as i16))
    }

    /// Append an i16 as two big-endian bytes.
    pub fn write_i16_be(&mut self, value: i16) -> (r: Result<(), Error>)
        requires
            old(self).wf(),
        ensures
            final(self).wf(),
            r is Ok,
            final(self).bytes() == old(self).bytes() + be16_bytes(#[verifier::truncate] (value as u16)),
            final(self).pos() == old(self).pos(),
    {
        self.write_u16_be(#[verifier::truncate] (value as u16))
    }

    /// Read a big-endian u32 and advance.
    pub fn read_u32_be(&mut self) -> (r: Result<u32, Error>)
        requires
            old(self).wf(),
        ensures
            final(self).wf(),
            final(self).bytes() == old(self).bytes(),
            r is Ok <==> old(self).pos() + 4 <= old(self).bytes().len(),
            r is Ok ==> {
                &&& r->Ok_0 == be32(old(self).bytes(), old(self).pos())
                &&& final(self).pos() == old(self).pos() + 4
            },
            r is Err ==> final(self).pos() == old(self).pos() && r->Err_0 is Io,
    {
        if !self.has_remaining(4) {
            return Err(Error::io("Not enough bytes"));
        }
        proof {
            lemma_len_bound(&self.buffer);
        }
        let b0 = self.buffer[self.cursor];
        let b1 = self.buffer[self.cursor + 1];
        let b2 = self.buffer[self.cursor + 2];
        let b3 = self.buffer[self.cursor + 3];
        self.cursor = self.cursor + 4;
        Ok((b0 as u32) * 0x1000000 + (b1 as u32) * 0x10000 + (b2 as u32) * 0x100 + (b3 as u32))
    }

    /// Append a u32 as four big-endian bytes.
    pub fn write_u32_be(&mut self, value: u32) -> (r: Result<(), Error>)
        requires
            old(self).wf(),
        ensures
            final(self).wf(),
            r is Ok,
            final(self).bytes() == old(self).bytes() + be32_bytes(value),
            final(self).pos() == old(self).pos(),
    {
        self.buffer.push((value / 0x1000000) as u8);
        self.buffer.push(((value / 0x10000) % 256) as u8);
        self.buffer.push(((value / 256) % 256) as u8);
        self.buffer.push((value % 256) as u8);
        proof {
            assert(self.bytes() =~= old(self).bytes() + be32_bytes(value));
        }
        Ok(())
    }

    /// Read a big-endian u64 (eight bytes, as used for the IEEE-754 bit
    /// pattern of an AMF0 number) and advance.
    pub fn read_u64_be(&mut self) -> (r: Result<u64, Error>)
        requires
            old(self).wf(),
        ensures
            final(self).wf(),
            final(self).bytes() == old(self).bytes(),
            r is Ok <==> old(self).pos() + 8 <= old(self).bytes().len(),
            r is Ok ==> {
                &&& r->Ok_0 == be64(old(self).bytes(), old(self).pos())
                &&& final(self).pos() == old(self).pos() + 8
            },
            r is Err ==> final(self).pos() == old(self).pos() && r->Err_0 is Io,
    {
        if !self.has_remaining(8) {
            return Err(Error::io("Not enough bytes"));
        }
        let hi = self.read_u32_be()?;
        let lo = self.read_u32_be()?;
        Ok((hi as u64) * 0x100000000 + (lo as u64))
    }

    /// Append a u64 as eight big-endian bytes.
    pub fn write_u64_be(&mut self, value: u64) -> (r: Result<(), Error>)
        requires
            old(self).wf(),
        ensures
            final(self).wf(),
            r is Ok,
            final(self).bytes() == old(self).bytes() + be64_bytes(value),
            final(self).pos() == old(self).pos(),
    {
        let hi = (value / 0x100000000) as u32;
        let lo = (value % 0x100000000) as u32;
        self.write_u32_be(hi)?;
        self.write_u32_be(lo)?;
        proof {
            assert(self.bytes() =~= old(self).bytes() + be64_bytes(value));
        }
        Ok(())
    }

    /// Copy out all bytes held by the buffer.
    pub fn to_vec(&self) -> (r: Vec<u8>)
        ensures
            r@ == self.bytes(),
    {
        self.buffer.clone()
    }

    /// Borrow the underlying bytes.
    pub fn as_slice(&self) -> (r: &[u8])
        ensures
            r@ == self.bytes(),
    {
        self.buffer.as_slice()
    }

    /// Drop all bytes and reset the cursor.
    pub fn clear(&mut self)
        ensures
            final(self).wf(),
            final(self).bytes() == Seq::<u8>::empty(),
            final(self).pos() == 0,
    {
        self.buffer.clear();
        self.cursor = 0;
    }

    /// The number of bytes held.
    pub fn len(&self) -> (r: usize)
        ensures
            r == self.bytes().len(),
    {
        self.buffer.len()
    }

    /// Whether the buffer holds no bytes.
    pub fn is_empty(&self) -> (r: bool)
        ensures
            r <==> self.bytes().len() == 0,
    {
        self.buffer.is_empty()
    }
}

/// The big-endian u16 standing at offset i of s.
pub open spec fn be16(s: Seq<u8>, i: int) -> u16
    recommends
        0 <= i,
        i + 2 <= s.len(),
{
    (s[i] * 256 + s[i + 1]) as u16
}

/// The big-endian u32 standing at offset i of s.
pub open spec fn be32(s: Seq<u8>, i: int) -> u32
    recommends
        0 <= i,
        i + 4 <= s.len(),
{
    (s[i] * 0x1000000 + s[i + 1] * 0x10000 + s[i + 2] * 0x100 + s[i + 3]) as u32
}

/// The big-endian u24 standing at offset i of s, widened to u32.
pub open spec fn be24(s: Seq<u8>, i: int) -> u32
    recommends
        0 <= i,
        i + 3 <= s.len(),
{
    (s[i] * 0x10000 + s[i + 1] * 0x100 + s[i + 2]) as u32
}

/// The little-endian u32 standing at offset i of s.
pub open spec fn le32(s: Seq<u8>, i: int) -> u32
    recommends
        0 <= i,
        i + 4 <= s.len(),
{
    (s[i + 3] * 0x1000000 + s[i + 2] * 0x10000 + s[i + 1] * 0x100 + s[i]) as u32
}

/// The big-endian u64 standing at offset i of s.
pub open spec fn be64(s: Seq<u8>, i: int) -> u64
    recommends
        0 <= i,
        i + 8 <= s.len(),
{
    (be32(s, i) * 0x100000000 + be32(s, i + 4)) as u64
}

/// The two big-endian bytes of v.
pub open spec fn be16_bytes(v: u16) -> Seq<u8> {
    seq![(v / 256) as u8, (v % 256) as u8]
}

/// The three big-endian bytes of the low 24 bits of v.
pub open spec fn be24_bytes(v: u32) -> Seq<u8>
    recommends
        v < 0x1000000,
{
    seq![((v / 0x10000) % 256) as u8, ((v / 256) % 256) as u8, (v % 256) as u8]
}

/// The four big-endian bytes of v.
pub open spec fn be32_bytes(v: u32) -> Seq<u8> {
    seq![
        (v / 0x1000000) as u8,
        ((v / 0x10000) % 256) as u8,
        ((v / 256) % 256) as u8,
        (v % 256) as u8,
    ]
}

/// The four little-endian bytes of v.
pub open spec fn le32_bytes(v: u32) -> Seq<u8> {
    seq![
        (v % 256) as u8,
        ((v / 256) % 256) as u8,
        ((v / 0x10000) % 256) as u8,
        (v / 0x1000000) as u8,
    ]
}

/// The eight big-endian bytes of v.
pub open spec fn be64_bytes(v: u64) -> Seq<u8> {
    be32_bytes((v / 0x100000000) as u32) + be32_bytes((v % 0x100000000) as u32)
}

/// Four big-endian bytes read back as the value they were written from.
pub proof fn lemma_be32_bytes_at(s: Seq<u8>, i: int, v: u32)
    requires
        0 <= i,
        i + 4 <= s.len(),
        s.subrange(i, i + 4) =~= be32_bytes(v),
    ensures
        be32(s, i) == v,
{
    assert(s[i] == be32_bytes(v)[0]);
    assert(s[i + 1] == be32_bytes(v)[1]);
    assert(s[i + 2] == be32_bytes(v)[2]);
    assert(s[i + 3] == be32_bytes(v)[3]);
}

} // verus!
