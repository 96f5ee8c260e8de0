//! Reads at a bit offset into a byte slice, shared by the readers. Each read
//! either succeeds and advances the offset, or fails and leaves it alone.
use crate::bits::{bits_of, bits_value, lemma_bits_value_bound};
use crate::engine::{bit_at, load_be_u64, MAX_BYTES};
use crate::error::BitError;
use crate::exp_golomb::{
    first_one, se_decode, ue_decode, unzigzag,
};
use crate::width::BitInt;
use vstd::arithmetic::power2::{
    lemma2_to64, lemma2_to64_rest, lemma_pow2_pos, lemma_pow2_strictly_increases,
    lemma_pow2_unfold,
};
use vstd::bits::lemma_u64_shl_is_mul;
use vstd::prelude::*;

verus! {

/// Reads over a byte slice, viewed as bits most significant first, at an
/// offset that the caller keeps.
pub struct BitSliceReadExt {}

impl BitSliceReadExt {
    /// Reads one bit.
    pub fn get(slice: &[u8], offset: &mut usize) -> (r: Result<bool, BitError>)
        requires
            slice@.len() <= MAX_BYTES,
            *old(offset) <= slice@.len() * 8,
        ensures
            *old(offset) < slice@.len() * 8 ==> r == Ok::<bool, BitError>(
                bits_of(slice@)[*old(offset) as int],
            ) && *final(offset) == *old(offset) + 1,
            *old(offset) == slice@.len() * 8 ==> r == Err::<bool, BitError>(BitError::OutOfBounds)
                && *final(offset) == *old(offset),
    {
        if *offset >= slice.len() * 8 {
            return Err(BitError::OutOfBounds);
        }
        let val = bit_at(slice, *offset);
        *offset = *offset + 1;
        Ok(val)
    }

    /// Reads `n` bits as an unsigned integer of type `I`, first bit most
    /// significant. Fails with `OutOfBounds` when fewer than `n` bits remain,
    /// else with `OutOfRange` when `n` exceeds the width of `I`.
    pub fn get_n<I: BitInt>(slice: &[u8], n: usize, offset: &mut usize) -> (r: Result<
        I,
        BitError,
    >)
        requires
            slice@.len() <= MAX_BYTES,
            *old(offset) <= slice@.len() * 8,
        ensures
            n > slice@.len() * 8 - *old(offset) ==> r == Err::<I, BitError>(BitError::OutOfBounds)
                && *final(offset) == *old(offset),
            n <= slice@.len() * 8 - *old(offset) && n > I::spec_width() ==> r == Err::<
                I,
                BitError,
            >(BitError::OutOfRange) && *final(offset) == *old(offset),
            n <= slice@.len() * 8 - *old(offset) && n <= I::spec_width() ==> r is Ok
                && r->Ok_0.spec_value() == bits_value(
                bits_of(slice@).subrange(*old(offset) as int, *old(offset) + n),
            ) && *final(offset) == *old(offset) + n,
    {
        let pos = *offset;
        if n > slice.len() * 8 - pos {
            return Err(BitError::OutOfBounds);
        }
        if n > I::width() {
            return Err(BitError::OutOfRange);
        }
        let ghost run = bits_of(slice@).subrange(pos as int, pos + n);
        proof {
            lemma_bits_value_bound(run);
            if n < I::spec_width() {
                lemma_pow2_strictly_increases(n as nat, I::spec_width());
            }
        }
        if n == 0 {
            return Ok(I::from_u64(0));
        }
        let v = load_be_u64(slice, pos, pos + n);
        *offset = pos + n;
        Ok(I::from_u64(v))
    }

    /// Reads a `ue(v)` code.
    pub fn get_ue(slice: &[u8], offset: &mut usize) -> (r: Result<u64, BitError>)
        requires
            slice@.len() <= MAX_BYTES,
            *old(offset) <= slice@.len() * 8,
        ensures
            match ue_decode(bits_of(slice@), *old(offset) as int) {
                Ok((v, p)) => r == Ok::<u64, BitError>(v as u64) && *final(offset) == p,
                Err(e) => r == Err::<u64, BitError>(e) && *final(offset) == *old(offset),
            },
            r is Err ==> *final(offset) == *old(offset),
    {
        let ghost bits = bits_of(slice@);
        let len = slice.len() * 8;
        let start = *offset;
        let mut pos = start;
        while pos < len && !bit_at(slice, pos)
            invariant
                bits == bits_of(slice@),
                slice@.len() <= MAX_BYTES,
                len == bits.len(),
                start <= pos <= len,
                first_one(bits, start as int) == first_one(bits, pos as int),
            decreases len - pos,
        {
            pos = pos + 1;
        }
        if pos == len {
            return Err(BitError::OutOfBounds);
        }
        assert(first_one(bits, pos as int) == pos);
        let k = pos - start;
        if k > len - pos - 1 {
            return Err(BitError::OutOfBounds);
        }
        if k > 64 {
            proof {
                lemma_pow2_strictly_increases(64, k as nat);
                lemma2_to64_rest();
            }
            return Err(BitError::Unrepresentable);
        }
        proof {
            lemma2_to64();
        }
        if k == 0 {
            *offset = pos + 1;
            assert(bits.subrange(pos + 1, pos + 1) =~= Seq::<bool>::empty());
            return Ok(0);
        }
        let suffix = load_be_u64(slice, pos + 1, pos + 1 + k);
        if k == 64 {
            proof {
                lemma2_to64_rest();
            }
            if suffix != 0 {
                return Err(BitError::Unrepresentable);
            }
            *offset = pos + 1 + k;
            return Ok(u64::MAX);
        }
        proof {
            lemma_bits_value_bound(bits.subrange(pos + 1, pos + 1 + k));
            lemma_pow2_strictly_increases(k as nat, 64);
            lemma_pow2_unfold((k + 1) as nat);
            if k + 1 < 64 {
                lemma_pow2_strictly_increases((k + 1) as nat, 64);
            }
            lemma2_to64_rest();
            lemma_u64_shl_is_mul(1, k as u64);
        }
        let base = (1u64 << k as u64) - 1;
        *offset = pos + 1 + k;
        Ok(base + suffix)
    }

    /// Reads an `se(v)` code.
    pub fn get_se(slice: &[u8], offset: &mut usize) -> (r: Result<i64, BitError>)
        requires
            slice@.len() <= MAX_BYTES,
            *old(offset) <= slice@.len() * 8,
        ensures
            match se_decode(bits_of(slice@), *old(offset) as int) {
                Ok((v, p)) => r == Ok::<i64, BitError>(v as i64) && *final(offset) == p,
                Err(e) => r == Err::<i64, BitError>(e) && *final(offset) == *old(offset),
            },
            r is Err ==> *final(offset) == *old(offset),
    {
        let start = *offset;
        let code_num = Self::get_ue(slice, offset)?;
        let ghost decoded = ue_decode(bits_of(slice@), start as int);
        proof {
            lemma_pow2_pos((first_one(bits_of(slice@), start as int) - start) as nat);
        }
        assert(decoded is Ok && decoded->Ok_0.0 <= u64::MAX);
        assert(code_num as nat == decoded->Ok_0.0);
        if code_num == u64::MAX {
            assert(unzigzag(code_num as nat) == 0x8000_0000_0000_0000);
            *offset = start;
            return Err(BitError::Unrepresentable);
        }
        assert(unzigzag(code_num as nat) <= i64::MAX);
        assert(unzigzag(code_num as nat) >= i64::MIN);
        let m = code_num / 2 + code_num % 2;
        let val = if code_num % 2 == 0 {
            -(m as i64)
        } else {
            m as i64
        };
        assert(val == unzigzag(code_num as nat));
        Ok(val)
    }
}

} // verus!
