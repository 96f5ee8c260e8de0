//! An append-only bit writer over a growable bit-vector.
use crate::bits::{bit_of, bits_of, lemma_low_bits_value, low_bits, zeros};
use crate::engine::{
    bitvec_as_raw_slice, bitvec_bits, bitvec_into_vec, bitvec_new, bitvec_push,
    bitvec_with_capacity, BitBuf, MAX_BITS,
};
use crate::error::BitError;
use crate::exp_golomb::{
    lemma_log2_bounds, log2, se_code, signed_to_unsigned, ue_code,
};
use crate::width::BitInt;
use vstd::arithmetic::div_mod::{
    lemma_div_denominator, lemma_fundamental_div_mod, lemma_fundamental_div_mod_converse,
};
use vstd::arithmetic::power2::{
    lemma2_to64, lemma2_to64_rest, lemma_pow2_pos, lemma_pow2_strictly_increases,
    lemma_pow2_unfold, pow2,
};
use vstd::bits::{lemma_u64_shl_is_mul, lemma_u64_shr_is_div};
use vstd::prelude::*;

verus! {

/// Appends bits, most significant first, to a buffer it owns.
pub struct BitVecWriter {
    bs: BitBuf,
    offset: usize,
}

/// `k` is the logarithm of `x` when `2^k <= x < 2^(k + 1)`.
proof fn lemma_log2_unique(x: nat, k: nat)
    requires
        pow2(k) <= x < pow2(k + 1),
    ensures
        log2(x) == k,
{
    lemma_pow2_pos(k);
    lemma_log2_bounds(x);
    if log2(x) < k {
        if log2(x) + 1 < k {
            lemma_pow2_strictly_increases(log2(x) + 1, k);
        }
    } else if log2(x) > k {
        if k + 1 < log2(x) {
            lemma_pow2_strictly_increases(k + 1, log2(x));
        }
    }
}

impl BitVecWriter {
    /// The writer's field and its count agree, within bitvec's bound.
    pub closed spec fn wf(&self) -> bool {
        self.offset == bitvec_bits(self.bs).len() && self.offset <= MAX_BITS
    }

    /// The bits written so far.
    pub closed spec fn spec_bits(&self) -> Seq<bool> {
        bitvec_bits(self.bs)
    }

    /// An empty writer.
    pub fn new() -> (r: Self)
        ensures
            r.wf(),
            r.spec_bits() == Seq::<bool>::empty(),
    {
        BitVecWriter { bs: bitvec_new(), offset: 0 }
    }

    /// An empty writer with room for `capacity` bits.
    pub fn with_capacity(capacity: usize) -> (r: Self)
        requires
            capacity <= MAX_BITS,
        ensures
            r.wf(),
            r.spec_bits() == Seq::<bool>::empty(),
    {
        BitVecWriter { bs: bitvec_with_capacity(capacity), offset: 0 }
    }

    /// Appends one bit.
    pub fn write(&mut self, v: bool)
        requires
            old(self).wf(),
            old(self).spec_bits().len() < MAX_BITS,
        ensures
            final(self).wf(),
            final(self).spec_bits() == old(self).spec_bits().push(v),
    {
        bitvec_push(&mut self.bs, v);
        self.offset = self.offset + 1;
    }

    /// Appends the low `n` bits of `x`, most significant first.
    fn write_low_bits(&mut self, x: u64, n: usize)
        requires
            old(self).wf(),
            n <= 64,
            old(self).spec_bits().len() + n <= MAX_BITS,
        ensures
            final(self).wf(),
            final(self).spec_bits() == old(self).spec_bits() + low_bits(x as nat, n as nat),
    {
        let ghost start = self.spec_bits();
        let mut i: usize = 0;
        proof {
            lemma_low_bits_value(x as nat / pow2(n as nat), 0);
            assert(start + low_bits(x as nat / pow2(n as nat), 0nat) =~= start);
        }
        while i < n
            invariant
                self.wf(),
                n <= 64,
                i <= n,
                start.len() + n <= MAX_BITS,
                self.spec_bits() == start + low_bits(x as nat / pow2((n - i) as nat), i as nat),
                self.spec_bits().len() == start.len() + i,
            decreases n - i,
        {
            let s = n - 1 - i;
            let bit = (x >> s as u64) & 1 == 1;
            proof {
                let y = x >> s as u64;
                assert((y & 1 == 1) == (y % 2 == 1)) by (bit_vector);
                lemma_u64_shr_is_div(x, s as u64);
                lemma_pow2_pos(s as nat);
                lemma_pow2_unfold((n - i) as nat);
                lemma_div_denominator(x as int, pow2(s as nat) as int, 2);
                assert(low_bits(x as nat / pow2(s as nat), (i + 1) as nat) == low_bits(
                    x as nat / pow2((n - i) as nat),
                    i as nat,
                ).push(bit));
            }
            self.write(bit);
            i = i + 1;
        }
        proof {
            lemma2_to64();
            assert(x as nat / 1 == x as nat);
        }
    }

    /// Appends the low `n` bits of `v`, most significant first; fails with
    /// `OutOfRange`, writing nothing, when `n` exceeds the width of `T`.
    pub fn write_n<T: BitInt>(&mut self, v: &T, n: usize) -> (r: Result<(), BitError>)
        requires
            old(self).wf(),
            n <= T::spec_width() ==> old(self).spec_bits().len() + n <= MAX_BITS,
        ensures
            final(self).wf(),
            n <= T::spec_width() ==> r is Ok && final(self).spec_bits() == old(self).spec_bits()
                + low_bits(v.spec_value(), n as nat),
            n > T::spec_width() ==> r == Err::<(), BitError>(BitError::OutOfRange)
                && final(self).spec_bits() == old(self).spec_bits(),
    {
        if n > T::width() {
            return Err(BitError::OutOfRange);
        }
        self.write_low_bits(v.to_u64(), n);
        Ok(())
    }

    /// Appends a raw signed field of `n` bits: a sign bit, one when `v` is
    /// negative, then the low `n - 1` bits of `v` in two's complement (for a
    /// negative `v` these are the bits of `v + 2^(n - 1)`). Fails with
    /// `OutOfRange`, writing nothing, unless `1 <= n <= 64`.
    pub fn write_signed_n(&mut self, v: &i64, n: usize) -> (r: Result<(), BitError>)
        requires
            old(self).wf(),
            1 <= n <= 64 ==> old(self).spec_bits().len() + n <= MAX_BITS,
        ensures
            final(self).wf(),
            1 <= n <= 64 ==> r is Ok && final(self).spec_bits() == old(self).spec_bits().push(
                *v < 0,
            ) + low_bits((*v as int % (pow2((n - 1) as nat) as int)) as nat, (n - 1) as nat),
            !(1 <= n <= 64) ==> r == Err::<(), BitError>(BitError::OutOfRange)
                && final(self).spec_bits() == old(self).spec_bits(),
    {
        if n == 0 || n > 64 {
            return Err(BitError::OutOfRange);
        }
        let s = n - 1;
        proof {
            lemma_pow2_pos(s as nat);
            lemma_pow2_strictly_increases(s as nat, 64);
            lemma2_to64_rest();
            lemma_u64_shl_is_mul(1, s as u64);
        }
        let m = 1u64 << s as u64;
        let low = if *v >= 0 {
            (*v as u64) % m
        } else {
            let a = (-(*v + 1)) as u64;
            proof {
                let q = (a / m) as int;
                let r = (a % m) as int;
                lemma_fundamental_div_mod(a as int, m as int);
                assert(-(a + 1) == (-q - 1) * m + (m - 1 - r)) by (nonlinear_arith)
                    requires
                        a == q * m + r,
                ;
                lemma_fundamental_div_mod_converse(*v as int, m as int, -q - 1, m - 1 - r);
            }
            (m - 1) - a % m
        };
        assert(low as nat == (*v as int % (pow2(s as nat) as int)) as nat);
        self.write(*v < 0);
        self.write_low_bits(low, s);
        Ok(())
    }

    /// Appends the `ue(v)` code of `v`.
    pub fn write_ue(&mut self, v: &u64)
        requires
            old(self).wf(),
            old(self).spec_bits().len() + 129 <= MAX_BITS,
        ensures
            final(self).wf(),
            final(self).spec_bits() == old(self).spec_bits() + ue_code(*v as nat),
            final(self).spec_bits().len() <= old(self).spec_bits().len() + 129,
    {
        let ghost start = self.spec_bits();
        let t: u128 = *v as u128 + 1;
        let mut k: usize = 0;
        let mut pw: u128 = 1;
        proof {
            lemma2_to64();
            lemma2_to64_rest();
        }
        while pw * 2 <= t
            invariant
                1 <= t <= pow2(64),
                pw == pow2(k as nat),
                1 <= pw <= t,
                k <= 64,
                pow2(64) == 0x1_0000_0000_0000_0000,
            decreases t - pw,
        {
            proof {
                lemma_pow2_unfold((k + 1) as nat);
                if k + 1 > 64 {
                    lemma_pow2_strictly_increases(64, (k + 1) as nat);
                }
            }
            pw = pw * 2;
            k = k + 1;
        }
        proof {
            lemma_pow2_unfold((k + 1) as nat);
            lemma_log2_unique(t as nat, k as nat);
            lemma_pow2_pos(k as nat);
            lemma_low_bits_value((*v as nat + 1 - pow2(k as nat)) as nat, k as nat);
            assert(ue_code(*v as nat).len() == 2 * k + 1);
        }
        let mut i: usize = 0;
        while i < k
            invariant
                self.wf(),
                i <= k,
                k == log2(*v as nat + 1),
                start.len() + 2 * k + 1 <= MAX_BITS,
                self.spec_bits() == start + zeros(i as nat),
            decreases k - i,
        {
            self.write(false);
            assert(self.spec_bits() =~= start + zeros((i + 1) as nat));
            i = i + 1;
        }
        self.write(true);
        let rem = (t - pw) as u64;
        self.write_low_bits(rem, k);
        assert(self.spec_bits() =~= start + ue_code(*v as nat));
    }

    /// Appends the `se(v)` code of `v`.
    pub fn write_se(&mut self, v: &i64)
        requires
            old(self).wf(),
            *v > i64::MIN,
            old(self).spec_bits().len() + 129 <= MAX_BITS,
        ensures
            final(self).wf(),
            final(self).spec_bits() == old(self).spec_bits() + se_code(*v as int),
            final(self).spec_bits().len() <= old(self).spec_bits().len() + 129,
    {
        let u = signed_to_unsigned(v);
        self.write_ue(&u);
    }

    /// Whether the number of bits written is a multiple of eight.
    pub fn is_aligned(&self) -> (r: bool)
        requires
            self.wf(),
        ensures
            r == (self.spec_bits().len() % 8 == 0),
    {
        self.offset % 8 == 0
    }

    /// The number of bits written.
    pub fn written_bits(&self) -> (r: usize)
        requires
            self.wf(),
        ensures
            r == self.spec_bits().len(),
    {
        self.offset
    }

    /// Appends zero bits up to the next byte boundary; writes nothing when
    /// already aligned.
    pub fn byte_align(&mut self)
        requires
            old(self).wf(),
            old(self).spec_bits().len() + 7 <= MAX_BITS,
        ensures
            final(self).wf(),
            final(self).spec_bits() == old(self).spec_bits() + zeros(
                ((8 - old(self).spec_bits().len() % 8) % 8) as nat,
            ),
    {
        let ghost start = self.spec_bits();
        let ghost pad = ((8 - start.len() % 8) % 8) as nat;
        assert(start + zeros(0) =~= start);
        while self.offset % 8 != 0
            invariant
                self.wf(),
                start.len() <= self.spec_bits().len() <= start.len() + pad,
                start.len() + 7 <= MAX_BITS,
                pad == ((8 - start.len() % 8) % 8) as nat,
                self.spec_bits() == start + zeros((self.spec_bits().len() - start.len()) as nat),
            decreases start.len() + pad - self.spec_bits().len(),
        {
            self.write(false);
            assert(self.spec_bits() =~= start + zeros((self.spec_bits().len() - start.len()) as nat));
        }
    }

    /// The bytes written so far: bit `i` is bit `i` of the bytes, most
    /// significant first; bits past the last one written carry no meaning.
    pub fn as_slice(&self) -> (r: &[u8])
        requires
            self.wf(),
        ensures
            r@.len() == (self.spec_bits().len() + 7) / 8,
            forall|i: int| 0 <= i < self.spec_bits().len() ==> bit_of(r@, i) == self.spec_bits()[i],
            self.spec_bits().len() % 8 == 0 ==> bits_of(r@) == self.spec_bits(),
    {
        let r = bitvec_as_raw_slice(&self.bs);
        assert(self.spec_bits().len() % 8 == 0 ==> bits_of(r@) =~= self.spec_bits());
        r
    }

    /// The bytes written, as `as_slice` gives them.
    pub fn into_inner(self) -> (r: Vec<u8>)
        requires
            self.wf(),
        ensures
            r@.len() == (self.spec_bits().len() + 7) / 8,
            forall|i: int| 0 <= i < self.spec_bits().len() ==> bit_of(r@, i) == self.spec_bits()[i],
            self.spec_bits().len() % 8 == 0 ==> bits_of(r@) == self.spec_bits(),
    {
        let ghost bits = self.spec_bits();
        let r = bitvec_into_vec(self.bs);
        assert(bits.len() % 8 == 0 ==> bits_of(r@) =~= bits);
        r
    }
}

impl Default for BitVecWriter {
    fn default() -> (r: Self)
        ensures
            r.wf(),
            r.spec_bits() == Seq::<bool>::empty(),
    {
        Self::new()
    }
}

} // verus!
