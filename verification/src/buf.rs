//! Growable append-only byte store with random-access patching of
//! previously written 32-bit fields.

use vstd::bytes::{
    lemma_auto_spec_u32_to_from_le_bytes, spec_u32_to_le_bytes, spec_u64_to_le_bytes,
    u32_to_le_bytes, u64_to_le_bytes,
};
use vstd::prelude::*;

verus! {

/// The byte sequence `b` with its four bytes starting at `i` replaced by the
/// little-endian encoding of `x`.
pub open spec fn splice_u32(b: Seq<u8>, i: int, x: u32) -> Seq<u8> {
    b.subrange(0, i) + spec_u32_to_le_bytes(x) + b.subrange(i + 4, b.len() as int)
}

/// Patch idempotence: overwriting the same 4-byte field with the same
/// value a second time is a no-op beyond the first write.
pub proof fn lemma_splice_idempotent(b: Seq<u8>, i: int, x: u32)
    requires
        0 <= i,
        i + 4 <= b.len(),
    ensures
        splice_u32(splice_u32(b, i, x), i, x) == splice_u32(b, i, x),
{
    lemma_auto_spec_u32_to_from_le_bytes();
    assert(splice_u32(splice_u32(b, i, x), i, x) =~= splice_u32(b, i, x));
}

/// Append-only byte buffer. Bytes, once written, change only through an
/// explicit `set_u32` at a caller-recorded offset.
pub struct Buf {
    bytes: Vec<u8>,
}

impl Buf {
    /// The bytes written so far, oldest first.
    pub closed spec fn contents(&self) -> Seq<u8> {
        self.bytes@
    }

    /// Creates an empty buffer.
    pub fn new() -> (b: Buf)
        ensures
            b.contents() == Seq::<u8>::empty(),
    {
        Buf { bytes: Vec::new() }
    }

    /// Number of bytes written so far.
    pub fn len(&self) -> (n: usize)
        ensures
            n == self.contents().len(),
    {
        self.bytes.len()
    }

    /// Read-only view of the whole buffer.
    pub fn view_bytes(&self) -> (s: &[u8])
        ensures
            s@ == self.contents(),
    {
        self.bytes.as_slice()
    }

    /// Appends a single byte.
    pub fn push_u8(&mut self, x: u8)
        ensures
            final(self).contents() == old(self).contents() + seq![x],
    {
        self.bytes.push(x);
        proof {
            assert(self.contents() =~= old(self).contents() + seq![x]);
        }
    }

    /// Appends the four little-endian bytes of `x`.
    pub fn push_u32(&mut self, x: u32)
        ensures
            final(self).contents() == old(self).contents() + spec_u32_to_le_bytes(x),
    {
        let mut le = u32_to_le_bytes(x);
        self.bytes.append(&mut le);
    }

    /// Appends the eight little-endian bytes of `x`.
    pub fn push_u64(&mut self, x: u64)
        ensures
            final(self).contents() == old(self).contents() + spec_u64_to_le_bytes(x),
    {
        let mut le = u64_to_le_bytes(x);
        self.bytes.append(&mut le);
    }

    /// Overwrites the four bytes at `offset` with the little-endian bytes of
    /// `x`; everything else is unchanged.
    pub fn set_u32(&mut self, offset: usize, x: u32)
        requires
            offset + 4 <= old(self).contents().len(),
        ensures
            final(self).contents() == splice_u32(old(self).contents(), offset as int, x),
    {
        proof {
            lemma_auto_spec_u32_to_from_le_bytes();
        }
        let n = self.bytes.len();
        assert(offset + 4 <= n);
        let le = u32_to_le_bytes(x);
        self.bytes[offset] = le[0];
        self.bytes[offset + 1] = le[1];
        self.bytes[offset + 2] = le[2];
        self.bytes[offset + 3] = le[3];
        proof {
            assert(self.contents() =~= splice_u32(old(self).contents(), offset as int, x));
        }
    }
}

} // verus!
