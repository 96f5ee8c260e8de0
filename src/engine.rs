//! The bit-storage engine: bitvec's most-significant-first views and
//! vectors, behind contracts stated over the model in `bits`.
use crate::bits::{bit_of, bits_of, bits_value};
use bitvec::field::BitField;
use bitvec::order::Msb0;
use bitvec::vec::BitVec;
use bitvec::view::BitView;
use vstd::prelude::*;

verus! {

/// The most bytes a reader may span, so that each bit has a `usize` index
/// and bitvec can view them as one bit-slice.
pub const MAX_BYTES: usize = usize::MAX / 64;

/// Relies on bitvec's `view_bits::<Msb0>` and bit-slice indexing: index `i`
/// of the view is the bit of weight `2^(7 - i % 8)` in byte `i / 8`.
#[verifier::external_body]
pub(crate) fn bit_at(bytes: &[u8], i: usize) -> (r: bool)
    requires
        bytes@.len() <= MAX_BYTES,
        i < bytes@.len() * 8,
    ensures
        r == bit_of(bytes@, i as int),
{
    bytes.view_bits::<Msb0>()[i]
}

/// Relies on bitvec's `BitField::load_be` on a range of the `Msb0` view: the
/// bits of the range, first bit most significant, as an unsigned integer.
/// It panics on an empty range or one wider than the integer.
#[verifier::external_body]
pub(crate) fn load_be_u64(bytes: &[u8], start: usize, end: usize) -> (r: u64)
    requires
        bytes@.len() <= MAX_BYTES,
        start < end <= bytes@.len() * 8,
        end - start <= 64,
    ensures
        r as nat == bits_value(bits_of(bytes@).subrange(start as int, end as int)),
{
    bytes.view_bits::<Msb0>()[start..end].load_be::<u64>()
}

/// The most bits a bit-vector may hold: bitvec's `BitSlice::MAX_BITS`,
/// which is `usize::MAX >> 3`.
pub const MAX_BITS: usize = usize::MAX / 8;

/// A most-significant-first bit-vector of bitvec over bytes. Verus refuses
/// a declaration of `BitVec` itself (its bounds name bitvec's traits), so it
/// is held here, and only the wrappers below reach it.
#[verifier::external_body]
pub struct BitBuf {
    bv: BitVec<u8, Msb0>,
}

/// The bits that a bit-vector holds, in order.
pub uninterp spec fn bitvec_bits(v: BitBuf) -> Seq<bool>;

/// Relies on bitvec's `BitVec::new`: an empty bit-vector.
#[verifier::external_body]
pub(crate) fn bitvec_new() -> (r: BitBuf)
    ensures
        bitvec_bits(r) == Seq::<bool>::empty(),
{
    BitBuf { bv: BitVec::new() }
}

/// Relies on bitvec's `BitVec::with_capacity`: an empty bit-vector. It
/// panics when the capacity exceeds `BitSlice::MAX_BITS`.
#[verifier::external_body]
pub(crate) fn bitvec_with_capacity(capacity: usize) -> (r: BitBuf)
    requires
        capacity <= MAX_BITS,
    ensures
        bitvec_bits(r) == Seq::<bool>::empty(),
{
    BitBuf { bv: BitVec::with_capacity(capacity) }
}

/// Relies on bitvec's `BitVec::push`: appends one bit. It panics when the
/// new length would exceed `BitSlice::MAX_BITS`.
#[verifier::external_body]
pub(crate) fn bitvec_push(v: &mut BitBuf, bit: bool)
    requires
        bitvec_bits(*old(v)).len() < MAX_BITS,
    ensures
        bitvec_bits(*final(v)) == bitvec_bits(*old(v)).push(bit),
{
    v.bv.push(bit)
}

/// Relies on bitvec's `BitVec::as_raw_slice`: the bytes that store the bits,
/// one byte per eight bits begun, bit `i` in byte `i / 8` at its `Msb0` place.
#[verifier::external_body]
pub(crate) fn bitvec_as_raw_slice(v: &BitBuf) -> (r: &[u8])
    ensures
        r@.len() == (bitvec_bits(*v).len() + 7) / 8,
        forall|i: int|
            0 <= i < bitvec_bits(*v).len() ==> bit_of(r@, i) == #[trigger] bitvec_bits(*v)[i],
{
    v.bv.as_raw_slice()
}

/// Relies on bitvec's `BitVec::into_vec`: the bytes that store the bits, as
/// `as_raw_slice` shows them.
#[verifier::external_body]
pub(crate) fn bitvec_into_vec(v: BitBuf) -> (r: Vec<u8>)
    ensures
        r@.len() == (bitvec_bits(v).len() + 7) / 8,
        forall|i: int|
            0 <= i < bitvec_bits(v).len() ==> bit_of(r@, i) == #[trigger] bitvec_bits(v)[i],
{
    v.bv.into_vec()
}

} // verus!
