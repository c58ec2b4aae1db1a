//! Key-derivation behaviour, held against the `md5` crate directly.

use untfo_rs::crypto::{data_key, index_key};

#[test]
fn data_key_known_digest() {
    // The MD5 digest of the empty input is d41d8cd98f00b204e9800998ecf8427e,
    // so the key is the first 16 characters of that hex text.
    let k = data_key("", "");
    assert_eq!(k, b"d41d8cd98f00b204".to_vec());
}

#[test]
fn data_key_matches_md5_hex_prefix() {
    let expected = format!("{:x}", md5::compute(b"secretname.pkg"));
    let k = data_key("secret", "name.pkg");
    assert_eq!(k, expected.as_bytes()[..16].to_vec());
}

#[test]
fn data_key_is_16_lowercase_hex_bytes() {
    for (s, n) in [("a", "b"), ("", "x.pkg"), ("a much longer secret value", "")] {
        let k = data_key(s, n);
        assert_eq!(k.len(), 16);
        for b in &k {
            assert!(b.is_ascii_hexdigit() && !b.is_ascii_uppercase());
        }
    }
}

#[test]
fn data_key_deterministic() {
    assert_eq!(data_key("s", "n"), data_key("s", "n"));
}

#[test]
fn index_key_same_parity_same_digest() {
    let km = [7u8; 16];
    assert_eq!(index_key(2, &km, "x.pkg"), index_key(4, &km, "x.pkg"));
    assert_eq!(index_key(1, &km, "x.pkg"), index_key(3, &km, "x.pkg"));
    assert_eq!(index_key(0, &km, "x.pkg"), index_key(12, &km, "x.pkg"));
}

#[test]
fn index_key_opposite_parity_differs() {
    let km = [7u8; 16];
    assert_ne!(index_key(1, &km, "x.pkg"), index_key(2, &km, "x.pkg"));
    assert_ne!(index_key(0, &km, "x.pkg"), index_key(1, &km, "x.pkg"));
}

#[test]
fn index_key_matches_md5_of_tagged_concat() {
    let km = *b"0123456789abcdef";
    // Odd selector: tag, key material, name.
    let mut odd = vec![2u8, 0, 0, 0];
    odd.extend_from_slice(&km);
    odd.extend_from_slice(b"x.pkg");
    assert_eq!(index_key(1, &km, "x.pkg"), md5::compute(&odd).0.to_vec());
    // Even selector: tag, name, key material.
    let mut even = vec![2u8, 0, 0, 0];
    even.extend_from_slice(b"x.pkg");
    even.extend_from_slice(&km);
    assert_eq!(index_key(0, &km, "x.pkg"), md5::compute(&even).0.to_vec());
}

#[test]
fn index_key_is_raw_16_byte_digest() {
    let km = [0u8; 16];
    let k = index_key(5, &km, "");
    assert_eq!(k.len(), 16);
}
