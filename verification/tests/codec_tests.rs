use cosmic_client_toolkit::codec::{
    decode_enum, decode_flag_words, decode_flags, decode_u64s, decode_words, encode_words,
    join_u64, Tagged,
};

#[test]
fn flags_inside_mask_decode_known() {
    let t = decode_flags(0b101, 0b111);
    assert_eq!(t, Tagged::Known(0b101));
    assert!(t.is_known());
    assert_eq!(t.raw(), 0b101);
}

#[test]
fn flags_outside_mask_decode_unrecognized_and_lossless() {
    let t = decode_flags(0b1101, 0b111);
    assert_eq!(t, Tagged::Unrecognized(0b1101));
    assert!(!t.is_known());
    assert_eq!(t.raw(), 0b1101);
}

#[test]
fn zero_word_is_always_known() {
    assert_eq!(decode_flags(0, 0), Tagged::Known(0));
}

#[test]
fn enum_value_in_table_is_known() {
    assert_eq!(decode_enum(2, &[0, 1, 2, 3]), Tagged::Known(2));
}

#[test]
fn enum_value_outside_table_is_unrecognized() {
    let t = decode_enum(9, &[0, 1, 2, 3]);
    assert_eq!(t, Tagged::Unrecognized(9));
    assert_eq!(t.raw(), 9);
}

#[test]
fn words_decode_little_endian() {
    let bytes = [1, 0, 0, 0, 0x78, 0x56, 0x34, 0x12];
    assert_eq!(decode_words(&bytes), vec![1, 0x12345678]);
}

#[test]
fn trailing_partial_word_is_ignored() {
    let bytes = [5, 0, 0, 0, 9, 9];
    assert_eq!(decode_words(&bytes), vec![5]);
}

#[test]
fn words_round_trip_through_bytes() {
    let words = vec![0, 1, 0xdeadbeef, u32::MAX, 7];
    let bytes = encode_words(&words);
    assert_eq!(bytes.len(), 20);
    assert_eq!(decode_words(&bytes), words);
}

#[test]
fn flag_words_preserve_order_and_tag_each_word() {
    let words = vec![0b1, 0b1000, 0b11];
    let bytes = encode_words(&words);
    let tagged = decode_flag_words(&bytes, 0b111);
    assert_eq!(
        tagged,
        vec![
            Tagged::Known(0b1),
            Tagged::Unrecognized(0b1000),
            Tagged::Known(0b11)
        ]
    );
}

#[test]
fn u64_halves_join_high_first() {
    assert_eq!(join_u64(1, 2), 0x1_0000_0002);
    assert_eq!(join_u64(0, 7), 7);
    assert_eq!(join_u64(u32::MAX, u32::MAX), u64::MAX);
}

#[test]
fn u64s_decode_little_endian() {
    let bytes = [1, 0, 0, 0, 0, 0, 0, 0, 0xff, 0, 0, 0, 0, 0, 0, 0x80];
    assert_eq!(decode_u64s(&bytes), vec![1, 0x8000_0000_0000_00ff]);
}
