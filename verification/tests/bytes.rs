use taproot_wallet::bytes::{same_bytes, to_array32, to_vec};

#[test]
fn to_array32_takes_exactly_32_bytes() {
    let bytes: Vec<u8> = (0..32).collect();
    let array = to_array32(&bytes).unwrap();
    assert_eq!(array.to_vec(), bytes);
    assert_eq!(to_array32(&bytes[..31]), None);
    assert_eq!(to_array32(&[0u8; 33]), None);
    assert_eq!(to_array32(&[]), None);
}

#[test]
fn to_vec_copies() {
    assert_eq!(to_vec(&[1, 2, 3]), vec![1, 2, 3]);
    assert_eq!(to_vec(&[]), Vec::<u8>::new());
}

#[test]
fn same_bytes_compares_length_and_content() {
    assert!(same_bytes(&[], &[]));
    assert!(same_bytes(&[1, 2], &[1, 2]));
    assert!(!same_bytes(&[1, 2], &[1, 3]));
    assert!(!same_bytes(&[1, 2], &[2, 2]));
    assert!(!same_bytes(&[1, 2], &[1]));
    assert!(!same_bytes(&[1], &[1, 2]));
}
