use ssh_core::codec::Data;
use ssh_core::error::SshError;

#[test]
fn u32_round_trip() {
    let mut d = Data::new();
    d.put_u32(0xDEADBEEF);
    let v = d.as_vec();
    assert_eq!(v, vec![0xDE, 0xAD, 0xBE, 0xEF]);
    let mut r = Data::from_vec(v);
    assert_eq!(r.get_u32(), Ok(0xDEADBEEF));
}

#[test]
fn u64_big_endian() {
    let mut d = Data::new();
    d.put_u64(0x0102030405060708);
    assert_eq!(d.as_vec(), vec![1, 2, 3, 4, 5, 6, 7, 8]);
}

#[test]
fn u32_truncated() {
    let mut r = Data::from_vec(vec![1, 2, 3]);
    assert_eq!(r.get_u32(), Err(SshError::Truncated));
    // the cursor did not move
    assert_eq!(r.get_u8(), Ok(1));
}

#[test]
fn string_round_trip() {
    let mut d = Data::new();
    d.put_string(b"hello\0world");
    let v = d.as_vec();
    assert_eq!(&v[0..4], &[0, 0, 0, 11]);
    let mut r = Data::from_vec(v);
    assert_eq!(r.get_string(), Ok(b"hello\0world".to_vec()));
    assert!(r.is_empty());
}

#[test]
fn string_truncated_leaves_cursor() {
    let mut r = Data::from_vec(vec![0, 0, 0, 9, 1, 2]);
    assert_eq!(r.get_string(), Err(SshError::Truncated));
    assert_eq!(r.remaining(), 6);
}

#[test]
fn bool_nonzero_is_true() {
    let mut r = Data::from_vec(vec![0, 1, 7]);
    assert_eq!(r.get_bool(), Ok(false));
    assert_eq!(r.get_bool(), Ok(true));
    assert_eq!(r.get_bool(), Ok(true));
}

#[test]
fn mpint_zero_is_empty() {
    let mut d = Data::new();
    d.put_mpint(&[0, 0, 0]);
    assert_eq!(d.as_vec(), vec![0, 0, 0, 0]);
}

#[test]
fn mpint_high_bit_gets_leading_zero() {
    let mut d = Data::new();
    d.put_mpint(&[0x80]);
    assert_eq!(d.as_vec(), vec![0, 0, 0, 2, 0, 0x80]);
}

#[test]
fn mpint_strips_leading_zeros() {
    let mut d = Data::new();
    d.put_mpint(&[0, 0, 1, 2]);
    assert_eq!(d.as_vec(), vec![0, 0, 0, 2, 1, 2]);
}

#[test]
fn mpint_plain_value() {
    let mut d = Data::new();
    d.put_mpint(&[0x7F, 0x10]);
    assert_eq!(d.as_vec(), vec![0, 0, 0, 2, 0x7F, 0x10]);
}

#[test]
fn skip_advances() {
    let mut r = Data::from_vec(vec![9, 9, 9, 5]);
    assert_eq!(r.skip(3), Ok(()));
    assert_eq!(r.get_u8(), Ok(5));
    assert_eq!(r.skip(1), Err(SshError::Truncated));
}
