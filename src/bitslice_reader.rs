//! A forward-only bit reader over borrowed bytes.
use crate::bits::{bits_of, bits_value};
use crate::engine::MAX_BYTES;
use crate::error::BitError;
use crate::exp_golomb::{se_decode, ue_decode};
use crate::reads::BitSliceReadExt;
use crate::width::BitInt;
use vstd::prelude::*;

verus! {

/// Reads bits, most significant first, from a borrowed byte slice.
pub struct BitSliceReader<'a> {
    bytes: &'a [u8],
    offset: usize,
}

impl<'a> BitSliceReader<'a> {
    #[verifier::type_invariant]
    closed spec fn inv(&self) -> bool {
        self.bytes@.len() <= MAX_BYTES && self.offset <= self.bytes@.len() * 8
    }

    /// The bytes read from.
    pub closed spec fn spec_bytes(&self) -> Seq<u8> {
        self.bytes@
    }

    /// The bits of the buffer.
    pub open spec fn spec_bits(&self) -> Seq<bool> {
        bits_of(self.spec_bytes())
    }

    /// The number of bits already read or skipped.
    pub closed spec fn spec_position(&self) -> nat {
        self.offset as nat
    }

    /// The number of bits left.
    pub open spec fn spec_available(&self) -> nat {
        (self.spec_bits().len() - self.spec_position()) as nat
    }

    /// A reader at the start of `bytes`.
    pub fn new(bytes: &'a [u8]) -> (r: Self)
        requires
            bytes@.len() <= MAX_BYTES,
        ensures
            r.spec_bytes() == bytes@,
            r.spec_position() == 0,
    {
        BitSliceReader { bytes, offset: 0 }
    }

    /// Reads one bit; fails with `OutOfBounds` at the end of the buffer.
    pub fn get(&mut self) -> (r: Result<bool, BitError>)
        ensures
            final(self).spec_bytes() == old(self).spec_bytes(),
            old(self).spec_available() > 0 ==> r == Ok::<bool, BitError>(
                old(self).spec_bits()[old(self).spec_position() as int],
            ) && final(self).spec_position() == old(self).spec_position() + 1,
            old(self).spec_available() == 0 ==> r == Err::<bool, BitError>(BitError::OutOfBounds)
                && *final(self) == *old(self),
    {
        proof {
            use_type_invariant(&*self);
        }
        let mut offset = self.offset;
        let r = BitSliceReadExt::get(self.bytes, &mut offset);
        self.offset = offset;
        r
    }

    /// Reads `n` bits as an unsigned integer of type `I`. Fails with
    /// `OutOfBounds` when fewer than `n` bits are left, else with
    /// `OutOfRange` when `n` exceeds the width of `I`.
    pub fn get_n<I: BitInt>(&mut self, n: usize) -> (r: Result<I, BitError>)
        ensures
            final(self).spec_bytes() == old(self).spec_bytes(),
            n > old(self).spec_available() ==> r == Err::<I, BitError>(BitError::OutOfBounds)
                && *final(self) == *old(self),
            n <= old(self).spec_available() && n > I::spec_width() ==> r == Err::<I, BitError>(
                BitError::OutOfRange,
            ) && *final(self) == *old(self),
            n <= old(self).spec_available() && n <= I::spec_width() ==> r is Ok
                && r->Ok_0.spec_value() == bits_value(
                old(self).spec_bits().subrange(
                    old(self).spec_position() as int,
                    old(self).spec_position() + n,
                ),
            ) && final(self).spec_position() == old(self).spec_position() + n,
    {
        proof {
            use_type_invariant(&*self);
        }
        let mut offset = self.offset;
        let r = BitSliceReadExt::get_n(self.bytes, n, &mut offset);
        self.offset = offset;
        r
    }

    /// Reads a `ue(v)` code.
    pub fn get_ue(&mut self) -> (r: Result<u64, BitError>)
        ensures
            final(self).spec_bytes() == old(self).spec_bytes(),
            match ue_decode(old(self).spec_bits(), old(self).spec_position() as int) {
                Ok((v, p)) => r == Ok::<u64, BitError>(v as u64) && final(self).spec_position()
                    == p,
                Err(e) => r == Err::<u64, BitError>(e) && *final(self) == *old(self),
            },
            r is Err ==> *final(self) == *old(self),
    {
        proof {
            use_type_invariant(&*self);
        }
        let mut offset = self.offset;
        let r = BitSliceReadExt::get_ue(self.bytes, &mut offset);
        self.offset = offset;
        r
    }

    /// Reads an `se(v)` code.
    pub fn get_se(&mut self) -> (r: Result<i64, BitError>)
        ensures
            final(self).spec_bytes() == old(self).spec_bytes(),
            match se_decode(old(self).spec_bits(), old(self).spec_position() as int) {
                Ok((v, p)) => r == Ok::<i64, BitError>(v as i64) && final(self).spec_position()
                    == p,
                Err(e) => r == Err::<i64, BitError>(e) && *final(self) == *old(self),
            },
            r is Err ==> *final(self) == *old(self),
    {
        proof {
            use_type_invariant(&*self);
        }
        let mut offset = self.offset;
        let r = BitSliceReadExt::get_se(self.bytes, &mut offset);
        self.offset = offset;
        r
    }

    /// Whether the position is on a byte boundary.
    pub fn is_aligned(&self) -> (r: bool)
        ensures
            r == (self.spec_position() % 8 == 0),
    {
        self.offset % 8 == 0
    }

    /// The number of bits left.
    pub fn available(&self) -> (r: usize)
        ensures
            r == self.spec_available(),
    {
        proof {
            use_type_invariant(self);
        }
        self.bytes.len() * 8 - self.offset
    }

    /// Skips `n` bits; fails with `OutOfBounds`, moving nothing, when fewer
    /// than `n` are left.
    pub fn skip_n(&mut self, n: usize) -> (r: Result<(), BitError>)
        ensures
            final(self).spec_bytes() == old(self).spec_bytes(),
            n <= old(self).spec_available() ==> r is Ok && final(self).spec_position()
                == old(self).spec_position() + n && final(self).spec_available()
                == old(self).spec_available() - n,
            n > old(self).spec_available() ==> r == Err::<(), BitError>(BitError::OutOfBounds)
                && *final(self) == *old(self),
    {
        proof {
            use_type_invariant(&*self);
        }
        if n > self.available() {
            return Err(BitError::OutOfBounds);
        }
        self.offset = self.offset + n;
        Ok(())
    }

    /// The number of bits already read or skipped.
    pub fn position(&self) -> (r: usize)
        ensures
            r == self.spec_position(),
            r <= self.spec_bits().len(),
    {
        proof {
            use_type_invariant(self);
        }
        self.offset
    }

    /// Rebinds the reader to `bytes`, at position 0.
    pub fn replace_buffer(&mut self, bytes: &'a [u8])
        requires
            bytes@.len() <= MAX_BYTES,
        ensures
            final(self).spec_bytes() == bytes@,
            final(self).spec_position() == 0,
    {
        *self = BitSliceReader { bytes, offset: 0 };
    }
}

impl<'a> Default for BitSliceReader<'a> {
    /// A reader over no bytes.
    fn default() -> (r: Self)
        ensures
            r.spec_bytes() == Seq::<u8>::empty(),
            r.spec_position() == 0,
    {
        let bytes: &'a [u8] = &[];
        BitSliceReader { bytes, offset: 0 }
    }
}

} // verus!
