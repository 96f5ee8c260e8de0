//! Bit-level reading and writing over byte buffers, most significant bit
//! first, with fixed-width fields and Exp-Golomb codes.

pub mod bits;
pub mod bitslice_reader;
pub mod bitvec_reader;
pub mod bitvec_writer;
pub mod engine;
pub mod error;
pub mod exp_golomb;
pub mod reads;
pub mod width;

pub use exp_golomb::signed_to_unsigned;
