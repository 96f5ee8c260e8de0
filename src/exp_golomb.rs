//! Exponential-Golomb codes: `ue(v)` for unsigned values, and `se(v)`,
//! which maps signed values onto `ue(v)` codes by a zigzag.
use crate::bits::{bits_value, lemma_bits_value_bound, lemma_low_bits_value, low_bits, zeros};
use crate::error::BitError;
use vstd::arithmetic::div_mod::lemma_small_mod;
use vstd::arithmetic::power2::{
    lemma2_to64, lemma2_to64_rest, lemma_pow2_pos, lemma_pow2_strictly_increases, lemma_pow2_unfold, pow2,
};
use vstd::prelude::*;

verus! {

/// The floor of the base-two logarithm of `x`, and 0 for 0.
pub open spec fn log2(x: nat) -> nat
    decreases x,
{
    if x <= 1 {
        0
    } else {
        1 + log2(x / 2)
    }
}

/// The `ue(v)` code of `v`: `k` zero bits, a one bit, and the low `k` bits of
/// `v + 1 - 2^k`, where `k` is the floor of the logarithm of `v + 1`.
pub open spec fn ue_code(v: nat) -> Seq<bool> {
    let k = log2(v + 1);
    zeros(k) + seq![true] + low_bits((v + 1 - pow2(k)) as nat, k)
}

/// Index of the first one bit at or after `pos`; the length when none follows.
pub open spec fn first_one(bits: Seq<bool>, pos: int) -> int
    decreases bits.len() - pos,
{
    if pos >= bits.len() {
        bits.len() as int
    } else if bits[pos] {
        pos
    } else {
        first_one(bits, pos + 1)
    }
}

/// Decoding a `ue(v)` code that starts at `pos`: the value and the position
/// just past the code. A code of `k` leading zeros needs `2k + 1` bits and
/// stands for `2^k - 1` plus its `k`-bit suffix; a value beyond `u64::MAX`
/// is unrepresentable.
pub open spec fn ue_decode(bits: Seq<bool>, pos: int) -> Result<(nat, int), BitError> {
    let one = first_one(bits, pos);
    let k = one - pos;
    let value = pow2(k as nat) - 1 + bits_value(bits.subrange(one + 1, one + 1 + k));
    if one + k + 1 > bits.len() {
        Err(BitError::OutOfBounds)
    } else if value > u64::MAX {
        Err(BitError::Unrepresentable)
    } else {
        Ok((value as nat, one + 1 + k))
    }
}

/// The zigzag mapping of a signed value onto a code number:
/// `0, 1, -1, 2, -2, ...` go to `0, 1, 2, 3, 4, ...`.
pub open spec fn zigzag(v: int) -> nat {
    if v > 0 {
        (2 * v - 1) as nat
    } else {
        (-2 * v) as nat
    }
}

/// The signed value of a code number, inverse of `zigzag`: `m = (c + 1) / 2`,
/// negated when `c` is even.
pub open spec fn unzigzag(c: nat) -> int {
    let m: int = ((c + 1) / 2) as int;
    if c % 2 == 0 {
        -m
    } else {
        m
    }
}

/// The `se(v)` code of `v`.
pub open spec fn se_code(v: int) -> Seq<bool> {
    ue_code(zigzag(v))
}

/// Decoding an `se(v)` code that starts at `pos`; a value outside `i64`
/// (only the code `u64::MAX`, which stands for `2^63`) is unrepresentable.
pub open spec fn se_decode(bits: Seq<bool>, pos: int) -> Result<(int, int), BitError> {
    match ue_decode(bits, pos) {
        Ok((c, p)) => if i64::MIN <= unzigzag(c) <= i64::MAX {
            Ok((unzigzag(c), p))
        } else {
            Err(BitError::Unrepresentable)
        },
        Err(e) => Err(e),
    }
}

/// Maps a signed value to its `se(v)` code number.
pub fn signed_to_unsigned(v: &i64) -> (r: u64)
    requires
        *v > i64::MIN,
    ensures
        r as nat == zigzag(*v as int),
{
    if *v > 0 {
        (*v as u64) * 2 - 1
    } else {
        ((-*v) as u64) * 2
    }
}

/// Bounds of the logarithm: `2^log2(x) <= x < 2^(log2(x) + 1)` for `x >= 1`.
pub proof fn lemma_log2_bounds(x: nat)
    requires
        x >= 1,
    ensures
        pow2(log2(x)) <= x < pow2(log2(x) + 1),
    decreases x,
{
    if x <= 1 {
        lemma2_to64();
    } else {
        lemma_log2_bounds(x / 2);
        lemma_pow2_unfold(log2(x));
        lemma_pow2_unfold(log2(x) + 1);
    }
}

/// The first one bit after a run of zeros is the one that ends the run.
proof fn lemma_first_one_after_zeros(bits: Seq<bool>, p: int, q: int)
    requires
        0 <= p <= q < bits.len(),
        bits[q],
        forall|i: int| p <= i < q ==> !bits[i],
    ensures
        first_one(bits, p) == q,
    decreases q - p,
{
    if p < q {
        lemma_first_one_after_zeros(bits, p + 1, q);
    }
}

/// Decoding the `ue(v)` code of any value below `2^40`, wherever it stands in
/// a stream, gives back the value and the position just past the code.
pub proof fn lemma_ue_round_trip(before: Seq<bool>, v: nat, after: Seq<bool>)
    requires
        v < pow2(40),
    ensures
        ue_decode(before + ue_code(v) + after, before.len() as int) == Ok::<(nat, int), BitError>(
            (v, (before.len() + ue_code(v).len()) as int),
        ),
{
    let k = log2(v + 1);
    let rest = (v + 1 - pow2(k)) as nat;
    let code = ue_code(v);
    let bits = before + code + after;
    let b = before.len() as int;
    lemma_log2_bounds(v + 1);
    lemma_pow2_unfold(k + 1);
    lemma_pow2_pos(k);
    lemma_low_bits_value(rest, k);
    lemma_small_mod(rest, pow2(k));
    if k > 40 {
        lemma_pow2_strictly_increases(40, k);
    }
    assert(code.len() == 2 * k + 1);
    assert(bits[b + k]);
    assert forall|i: int| b <= i < b + k implies !bits[i] by {
        assert(bits[i] == code[i - b]);
    }
    lemma_first_one_after_zeros(bits, b, b + k);
    lemma2_to64();
    lemma2_to64_rest();
    assert(bits.subrange(b + k + 1, b + 2 * k + 1) =~= low_bits(rest, k));
}

/// Decoding the `se(v)` code of any value in `[-2^20, 2^20)`, wherever it
/// stands in a stream, gives back the value and the position just past the code.
pub proof fn lemma_se_round_trip(before: Seq<bool>, v: int, after: Seq<bool>)
    requires
        -pow2(20) <= v < pow2(20),
    ensures
        se_decode(before + se_code(v) + after, before.len() as int) == Ok::<(int, int), BitError>(
            (v, (before.len() + se_code(v).len()) as int),
        ),
{
    lemma2_to64();
    lemma2_to64_rest();
    assert(zigzag(v) < pow2(40));
    lemma_ue_round_trip(before, zigzag(v), after);
    assert(unzigzag(zigzag(v)) == v);
}

} // verus!
