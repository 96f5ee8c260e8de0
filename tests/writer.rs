use bitvec_helpers::bitvec_writer::BitVecWriter;
use bitvec_helpers::error::BitError;

#[test]
fn write_bits_pack_msb_first() {
    let mut writer = BitVecWriter::with_capacity(16);
    for bit in [true, false, true, true, false, false, false, true] {
        writer.write(bit);
    }
    assert!(writer.is_aligned());
    assert_eq!(writer.written_bits(), 8);
    assert_eq!(writer.as_slice(), &[0b1011_0001]);
}

#[test]
fn write_n_emits_low_bits() {
    let mut writer = BitVecWriter::new();
    assert_eq!(writer.write_n(&0xABu8, 4), Ok(()));
    assert_eq!(writer.write_n(&0x1234u16, 12), Ok(()));
    assert_eq!(writer.as_slice(), &[0xB2, 0x34]);
    assert_eq!(writer.write_n(&u64::MAX, 64), Ok(()));
    assert_eq!(writer.written_bits(), 80);
    assert_eq!(writer.as_slice()[2..], [0xFF; 8]);
}

#[test]
fn write_n_beyond_width_is_out_of_range() {
    let mut writer = BitVecWriter::new();
    assert_eq!(writer.write_n(&1u8, 9), Err(BitError::OutOfRange));
    assert_eq!(writer.written_bits(), 0);
    assert_eq!(writer.write_n(&1u32, 33), Err(BitError::OutOfRange));
    assert_eq!(writer.write_n(&1u32, 32), Ok(()));
    assert_eq!(writer.into_inner(), vec![0, 0, 0, 1]);
}

#[test]
fn byte_align_pads_with_zeros_and_is_idempotent() {
    let mut writer = BitVecWriter::new();
    writer.write(true);
    writer.write(true);
    writer.write(true);
    assert!(!writer.is_aligned());
    writer.byte_align();
    assert!(writer.is_aligned());
    assert_eq!(writer.written_bits(), 8);
    writer.byte_align();
    assert_eq!(writer.written_bits(), 8);
    assert_eq!(writer.into_inner(), vec![0b1110_0000]);
}

#[test]
fn empty_writer_is_aligned_and_empty() {
    let mut writer = BitVecWriter::new();
    assert!(writer.is_aligned());
    writer.byte_align();
    assert_eq!(writer.written_bits(), 0);
    assert!(writer.as_slice().is_empty());
}

#[test]
fn write_signed_n_sign_and_magnitude() {
    let mut writer = BitVecWriter::new();
    assert_eq!(writer.write_signed_n(&-3, 4), Ok(()));
    assert_eq!(writer.write_signed_n(&3, 4), Ok(()));
    assert_eq!(writer.as_slice(), &[0b1101_0011]);
}

#[test]
fn write_signed_n_full_width() {
    let mut writer = BitVecWriter::new();
    assert_eq!(writer.write_signed_n(&-1, 64), Ok(()));
    assert_eq!(writer.written_bits(), 64);
    assert_eq!(writer.into_inner(), vec![0xFF; 8]);

    let mut writer = BitVecWriter::new();
    assert_eq!(writer.write_signed_n(&i64::MIN, 64), Ok(()));
    assert_eq!(writer.into_inner(), vec![0x80, 0, 0, 0, 0, 0, 0, 0]);
}

#[test]
fn write_signed_n_rejects_bad_widths() {
    let mut writer = BitVecWriter::new();
    assert_eq!(writer.write_signed_n(&1, 0), Err(BitError::OutOfRange));
    assert_eq!(writer.write_signed_n(&1, 65), Err(BitError::OutOfRange));
    assert_eq!(writer.written_bits(), 0);
    assert_eq!(writer.write_signed_n(&-1, 1), Ok(()));
    assert_eq!(writer.written_bits(), 1);
}

#[test]
fn default_writer_is_empty() {
    let writer = BitVecWriter::default();
    assert_eq!(writer.written_bits(), 0);
    assert!(writer.is_aligned());
}
