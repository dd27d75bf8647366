use casino_escrow::codec::{bytes_eq, bytes_eq_32, copy_range, get_le, i64_bits, i64_from_bits, put_bytes32, put_le};
use casino_escrow::pubkey::{bytes32_eq, Pubkey};

#[test]
fn codec_put_le_writes_the_least_significant_byte_first() {
    let mut out = vec![0xffu8];
    put_le(&mut out, 0x0102_0304_0506_0708, 8);
    assert_eq!(out, vec![0xff, 8, 7, 6, 5, 4, 3, 2, 1]);
}

#[test]
fn codec_put_le_keeps_the_low_bytes_of_a_narrow_width() {
    let mut out = Vec::new();
    put_le(&mut out, 258, 4);
    assert_eq!(out, vec![2, 1, 0, 0]);
    let mut out = Vec::new();
    put_le(&mut out, 0x0102_0304, 2);
    assert_eq!(out, vec![4, 3]);
    let mut out = Vec::new();
    put_le(&mut out, 77, 0);
    assert_eq!(out, Vec::<u8>::new());
}

#[test]
fn codec_put_le_agrees_with_to_le_bytes() {
    for value in [0u64, 1, 255, 256, 50_000, 5_000_000_000, u64::MAX] {
        let mut out = Vec::new();
        put_le(&mut out, value, 8);
        assert_eq!(out, value.to_le_bytes().to_vec());
    }
}

#[test]
fn codec_get_le_reads_back_what_put_le_wrote() {
    let bytes = vec![9u8, 8, 7, 6, 5, 4, 3, 2, 1, 0];
    assert_eq!(get_le(&bytes, 1, 8), 0x0102_0304_0506_0708);
    assert_eq!(get_le(&bytes, 0, 2), 0x0809);
    assert_eq!(get_le(&bytes, 9, 1), 0);
    assert_eq!(get_le(&bytes, 10, 0), 0);
    assert_eq!(get_le(&vec![0xff; 8], 0, 8), u64::MAX);
}

#[test]
fn codec_i64_bits_is_twos_complement() {
    assert_eq!(i64_bits(0), 0);
    assert_eq!(i64_bits(1), 1);
    assert_eq!(i64_bits(-1), u64::MAX);
    assert_eq!(i64_bits(i64::MAX), 0x7fff_ffff_ffff_ffff);
    assert_eq!(i64_bits(i64::MIN), 0x8000_0000_0000_0000);
    assert_eq!(i64_bits(-2), u64::MAX - 1);
}

#[test]
fn codec_i64_from_bits_undoes_i64_bits() {
    for value in [0i64, 1, -1, 1_700_000_000, -1_700_000_000, i64::MAX, i64::MIN] {
        assert_eq!(i64_from_bits(i64_bits(value)), value);
        assert_eq!(i64_bits(value).to_le_bytes(), value.to_le_bytes());
    }
}

#[test]
fn codec_put_bytes32_appends_all_bytes() {
    let mut key = [0u8; 32];
    for (i, b) in key.iter_mut().enumerate() {
        *b = i as u8;
    }
    let mut out = vec![200u8];
    put_bytes32(&mut out, &key);
    assert_eq!(out.len(), 33);
    assert_eq!(out[0], 200);
    assert_eq!(&out[1..], &key[..]);
}

#[test]
fn codec_copy_range_copies_the_half_open_range() {
    let bytes = vec![10u8, 11, 12, 13, 14];
    assert_eq!(copy_range(&bytes, 1, 4), vec![11, 12, 13]);
    assert_eq!(copy_range(&bytes, 0, 5), bytes);
    assert_eq!(copy_range(&bytes, 3, 3), Vec::<u8>::new());
}

#[test]
fn codec_bytes_eq_compares_length_and_content() {
    assert!(bytes_eq(&vec![1, 2, 3], &vec![1, 2, 3]));
    assert!(!bytes_eq(&vec![1, 2, 3], &vec![1, 2, 4]));
    assert!(!bytes_eq(&vec![1, 2, 3], &vec![1, 2]));
    assert!(bytes_eq(&vec![], &vec![]));
}

#[test]
fn codec_bytes_eq_32_compares_with_a_key() {
    let key = [7u8; 32];
    assert!(bytes_eq_32(&vec![7u8; 32], &key));
    assert!(!bytes_eq_32(&vec![7u8; 31], &key));
    assert!(!bytes_eq_32(&vec![7u8; 33], &key));
    let mut other = vec![7u8; 32];
    other[31] = 8;
    assert!(!bytes_eq_32(&other, &key));
}

#[test]
fn pubkey_equality_is_by_bytes() {
    let a = Pubkey::new_from_array([1; 32]);
    let b = Pubkey::new_from_array([1; 32]);
    let mut bytes = [1u8; 32];
    bytes[0] = 2;
    let c = Pubkey::new_from_array(bytes);
    assert!(a == b);
    assert!(a != c);
    assert_eq!(a.to_bytes(), [1; 32]);
    assert!(bytes32_eq(&a.bytes, &b.bytes));
    assert!(!bytes32_eq(&a.bytes, &c.bytes));
}

#[test]
fn pubkey_from_bytes_at_reads_32_bytes() {
    let mut bytes = vec![0u8; 40];
    for (i, b) in bytes.iter_mut().enumerate() {
        *b = i as u8;
    }
    let key = Pubkey::from_bytes_at(&bytes, 5);
    assert_eq!(&key.bytes[..], &bytes[5..37]);
    let key = Pubkey::from_bytes_at(&bytes, 8);
    assert_eq!(&key.bytes[..], &bytes[8..40]);
}
