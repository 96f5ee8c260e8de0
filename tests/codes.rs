use bitvec_helpers::bitslice_reader::BitSliceReader;
use bitvec_helpers::bitvec_reader::BitVecReader;
use bitvec_helpers::bitvec_writer::BitVecWriter;
use bitvec_helpers::error::BitError;
use bitvec_helpers::exp_golomb::signed_to_unsigned;
use bitvec_helpers::reads::BitSliceReadExt;

fn bits_of(writer: &BitVecWriter) -> Vec<bool> {
    let bytes = writer.as_slice();
    (0..writer.written_bits())
        .map(|i| (bytes[i / 8] >> (7 - i % 8)) & 1 == 1)
        .collect()
}

fn pattern(s: &str) -> Vec<bool> {
    s.chars().map(|c| c == '1').collect()
}

#[test]
fn zigzag_mapping_table() {
    assert_eq!(signed_to_unsigned(&0), 0);
    assert_eq!(signed_to_unsigned(&1), 1);
    assert_eq!(signed_to_unsigned(&-1), 2);
    assert_eq!(signed_to_unsigned(&2), 3);
    assert_eq!(signed_to_unsigned(&-2), 4);
    assert_eq!(signed_to_unsigned(&i64::MAX), u64::MAX - 2);
    assert_eq!(signed_to_unsigned(&(i64::MIN + 1)), u64::MAX - 1);
}

#[test]
fn ue_five_bit_pattern_and_decode() {
    let mut writer = BitVecWriter::new();
    writer.write_ue(&5);
    assert_eq!(writer.written_bits(), 5);
    assert_eq!(bits_of(&writer), pattern("00110"));
    writer.byte_align();
    let bytes = writer.as_slice().to_vec();
    assert_eq!(bytes, vec![0b0011_0000]);
    let mut reader = BitSliceReader::new(&bytes);
    assert_eq!(reader.get_ue(), Ok(5));
    assert_eq!(reader.position(), 5);
}

#[test]
fn se_minus_three_bit_pattern_and_decode() {
    assert_eq!(signed_to_unsigned(&-3), 6);
    let mut writer = BitVecWriter::new();
    writer.write_se(&-3);
    assert_eq!(bits_of(&writer), pattern("00111"));
    writer.byte_align();
    let bytes = writer.into_inner();
    let mut reader = BitVecReader::new(bytes);
    assert_eq!(reader.get_se(), Ok(-3));
    assert_eq!(reader.position(), 5);
}

#[test]
fn ue_small_codes() {
    let cases: [(u64, &str); 5] = [(0, "1"), (1, "010"), (2, "011"), (3, "00100"), (6, "00111")];
    for (v, code) in cases {
        let mut writer = BitVecWriter::new();
        writer.write_ue(&v);
        assert_eq!(bits_of(&writer), pattern(code));
    }
}

#[test]
fn ue_round_trip_many_values() {
    let values: Vec<u64> = (0..300u64)
        .chain([1023, 1024, 65535, (1 << 32) - 1, (1 << 40) - 1, (1 << 62) + 5, u64::MAX - 1])
        .collect();
    let mut writer = BitVecWriter::new();
    for v in &values {
        writer.write_ue(v);
    }
    writer.byte_align();
    let bytes = writer.into_inner();
    let mut reader = BitSliceReader::new(&bytes);
    for v in &values {
        assert_eq!(reader.get_ue(), Ok(*v));
    }
    assert!(reader.available() < 8);
}

#[test]
fn se_round_trip_many_values() {
    let values: Vec<i64> = (-300..300i64)
        .chain([-(1 << 20), (1 << 20) - 1, i64::MAX, i64::MIN + 1])
        .collect();
    let mut writer = BitVecWriter::new();
    for v in &values {
        writer.write_se(v);
    }
    writer.byte_align();
    let bytes = writer.into_inner();
    let mut reader = BitVecReader::new(bytes);
    for v in &values {
        assert_eq!(reader.get_se(), Ok(*v));
    }
}

#[test]
fn ue_of_largest_value_reads_back() {
    let mut writer = BitVecWriter::new();
    writer.write_ue(&u64::MAX);
    assert_eq!(writer.written_bits(), 129);
    writer.byte_align();
    let bytes = writer.into_inner();
    let mut reader = BitSliceReader::new(&bytes);
    assert_eq!(reader.get_ue(), Ok(u64::MAX));
    assert_eq!(reader.position(), 129);
}

#[test]
fn ue_beyond_u64_is_unrepresentable() {
    // 64 zeros, a one, then a suffix of 63 zeros and a one: 2^64.
    let mut bytes = vec![0u8; 8];
    bytes.push(0x80);
    bytes.extend([0u8; 7]);
    bytes.push(0x80);
    let mut reader = BitSliceReader::new(&bytes);
    assert_eq!(reader.get_ue(), Err(BitError::Unrepresentable));
    assert_eq!(reader.position(), 0);

    // 65 zeros, a one, then 65 suffix bits.
    let mut wide = vec![0u8; 8];
    wide.push(0x40);
    wide.extend([0u8; 9]);
    let mut reader = BitVecReader::new(wide);
    assert_eq!(reader.get_ue(), Err(BitError::Unrepresentable));
    assert_eq!(reader.position(), 0);
}

#[test]
fn se_of_largest_code_is_unrepresentable() {
    let mut writer = BitVecWriter::new();
    writer.write_ue(&u64::MAX);
    writer.write_ue(&(u64::MAX - 1));
    writer.byte_align();
    let bytes = writer.into_inner();
    let mut reader = BitSliceReader::new(&bytes);
    assert_eq!(reader.get_se(), Err(BitError::Unrepresentable));
    assert_eq!(reader.position(), 0);
    assert_eq!(reader.skip_n(129), Ok(()));
    assert_eq!(reader.get_se(), Ok(i64::MIN + 1));
}

#[test]
fn ue_truncated_suffix_is_out_of_bounds() {
    let mut reader = BitSliceReader::new(&[0b0000_0001]);
    assert_eq!(reader.get_ue(), Err(BitError::OutOfBounds));
    assert_eq!(reader.position(), 0);
    let mut zeros = BitSliceReader::new(&[0, 0]);
    assert_eq!(zeros.get_se(), Err(BitError::OutOfBounds));
    assert_eq!(zeros.position(), 0);
}

#[test]
fn read_ext_tracks_offset() {
    let bytes = [0b0100_1100];
    let mut offset: usize = 0;
    assert_eq!(BitSliceReadExt::get_ue(&bytes, &mut offset), Ok(1));
    assert_eq!(offset, 3);
    assert_eq!(BitSliceReadExt::get(&bytes, &mut offset), Ok(0 == 1));
    assert_eq!(BitSliceReadExt::get_n::<u8>(&bytes, 4, &mut offset), Ok(0b1100));
    assert_eq!(offset, 8);
    assert_eq!(BitSliceReadExt::get_se(&bytes, &mut offset), Err(BitError::OutOfBounds));
}
