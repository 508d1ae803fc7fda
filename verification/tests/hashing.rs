use ferrocopy::hash::{hashes_match, to_decimal, to_hex, StreamHasher};

#[test]
fn blake3_text_is_the_lowercase_hex_digest() {
    let mut h = StreamHasher::new(true);
    h.update(b"abc");
    assert_eq!(
        h.finalize_hex(),
        "6437b3ac38465133ffb63b75273a8db548c558465d79db03fd359c6cd5bd9d85"
    );
    assert_eq!(h.finalize_hex(), blake3::hash(b"abc").to_hex().to_string());
}

#[test]
fn xxh3_text_is_the_decimal_128_bit_digest() {
    let mut h = StreamHasher::new(false);
    h.update(b"hello ");
    h.update(b"world");
    let expected = xxhash_rust::xxh3::xxh3_128(b"hello world").to_string();
    assert_eq!(h.finalize_hex(), expected);
}

#[test]
fn chunking_does_not_change_the_hash() {
    for blake3 in [true, false] {
        let mut whole = StreamHasher::new(blake3);
        whole.update(b"0123456789");
        let mut parts = StreamHasher::new(blake3);
        parts.update(b"0123");
        parts.update(b"");
        parts.update(b"456789");
        assert!(hashes_match(&whole.finalize_hex(), &parts.finalize_hex()));
    }
}

#[test]
fn different_contents_do_not_match() {
    let mut a = StreamHasher::new(true);
    a.update(b"one");
    let mut b = StreamHasher::new(true);
    b.update(b"two");
    assert!(!hashes_match(&a.finalize_hex(), &b.finalize_hex()));
}

#[test]
fn text_forms() {
    assert_eq!(to_hex(&[0x00, 0x0f, 0xa0, 0xff]), "000fa0ff");
    assert_eq!(to_hex(&[]), "");
    assert_eq!(to_decimal(0), "0");
    assert_eq!(to_decimal(1234567890), "1234567890");
    assert_eq!(to_decimal(u128::MAX), u128::MAX.to_string());
}
