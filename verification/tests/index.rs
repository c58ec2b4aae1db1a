//! Index-package decoding, with packages built by encrypting synthetic
//! catalogs with the real cipher.

use aes::Aes128;
use block_modes::block_padding::Pkcs7;
use block_modes::{BlockMode, Cbc};
use untfo_rs::crypto::index_key;
use untfo_rs::pkg::index::{PkgIndex, PkgIndexCipher, PkgIndexError, PkgIndexVersion};

fn encrypt_pkcs7(key: &[u8], data: &[u8]) -> Vec<u8> {
    let cipher = Cbc::<Aes128, Pkcs7>::new_from_slices(key, &[0u8; 16]).unwrap();
    cipher.encrypt_vec(data)
}

fn build_index(version: u16, cipher: u8, selector: u8, declared_len: u32, ct: &[u8]) -> Vec<u8> {
    let mut v = Vec::new();
    v.extend_from_slice(&version.to_le_bytes());
    v.push(cipher);
    v.push(selector);
    v.extend_from_slice(&declared_len.to_le_bytes());
    v.extend_from_slice(ct);
    v
}

#[test]
fn catalog_round_trip() {
    let km = *b"0123456789abcdef";
    let key = index_key(1, &km, "x.idx");
    let ct = encrypt_pkcs7(&key, b"a.txt\r\nb.bin");
    let input = build_index(2, 2, 1, ct.len() as u32, &ct);
    let idx = PkgIndex::new(&input, "x.idx", &[km]).unwrap();
    assert_eq!(idx.filenames, vec!["a.txt".to_string(), "b.bin".to_string()]);
    assert!(matches!(idx.version, PkgIndexVersion::TFO));
    assert!(matches!(idx.cipher, PkgIndexCipher::AES));
    assert_eq!(idx.key_num, 1);
}

#[test]
fn selector_picks_slot_and_parity() {
    // Selector 3 is odd and addresses the second table slot.
    let k0 = [1u8; 16];
    let k1 = *b"fedcba9876543210";
    let key = index_key(3, &k1, "cat.pkg");
    let ct = encrypt_pkcs7(&key, b"one\r\ntwo\r\nthree");
    let input = build_index(2, 2, 3, ct.len() as u32, &ct);
    let idx = PkgIndex::new(&input, "cat.pkg", &[k0, k1]).unwrap();
    assert_eq!(
        idx.filenames,
        vec!["one".to_string(), "two".to_string(), "three".to_string()]
    );
    assert_eq!(idx.key_num, 3);
}

#[test]
fn declared_length_is_not_enforced() {
    let km = [5u8; 16];
    let key = index_key(0, &km, "i.pkg");
    let ct = encrypt_pkcs7(&key, b"only.txt");
    // Declared length deliberately wrong.
    let input = build_index(2, 2, 0, 1, &ct);
    let idx = PkgIndex::new(&input, "i.pkg", &[km]).unwrap();
    assert_eq!(idx.filenames, vec!["only.txt".to_string()]);
}

#[test]
fn trailing_separator_keeps_empty_segment() {
    let km = [5u8; 16];
    let key = index_key(0, &km, "i.pkg");
    let ct = encrypt_pkcs7(&key, b"a\r\n");
    let input = build_index(2, 2, 0, ct.len() as u32, &ct);
    let idx = PkgIndex::new(&input, "i.pkg", &[km]).unwrap();
    assert_eq!(idx.filenames, vec!["a".to_string(), String::new()]);
}

#[test]
fn empty_catalog_is_one_empty_name() {
    let km = [5u8; 16];
    let key = index_key(0, &km, "i.pkg");
    let ct = encrypt_pkcs7(&key, b"");
    let input = build_index(2, 2, 0, 0, &ct);
    let idx = PkgIndex::new(&input, "i.pkg", &[km]).unwrap();
    assert_eq!(idx.filenames, vec![String::new()]);
}

#[test]
fn unsupported_version_yields_invalid_version() {
    let input = build_index(3, 2, 0, 0, &[]);
    let e = PkgIndex::new(&input, "i.pkg", &[[0u8; 16]]).unwrap_err();
    assert_eq!(
        e,
        PkgIndexError::InvalidVersion(PkgIndexVersion::Unsupported(3))
    );
}

#[test]
fn unsupported_cipher_yields_invalid_algorithm() {
    let input = build_index(2, 9, 0, 0, &[]);
    let e = PkgIndex::new(&input, "i.pkg", &[[0u8; 16]]).unwrap_err();
    assert_eq!(
        e,
        PkgIndexError::InvalidAlgorithm(PkgIndexCipher::Unsupported(9))
    );
}

#[test]
fn non_block_ciphertext_yields_invalid_padding() {
    let input = build_index(2, 2, 0, 15, &[0u8; 15]);
    let e = PkgIndex::new(&input, "i.pkg", &[[0u8; 16]]).unwrap_err();
    assert_eq!(e, PkgIndexError::InvalidPadding);
}

#[test]
fn wrong_key_yields_invalid_padding() {
    let right = [5u8; 16];
    let wrong = [6u8; 16];
    let key = index_key(0, &right, "i.pkg");
    let ct = encrypt_pkcs7(&key, b"a.txt\r\nb.bin\r\nc.bin\r\nd.bin");
    let input = build_index(2, 2, 0, ct.len() as u32, &ct);
    let e = PkgIndex::new(&input, "i.pkg", &[wrong]).unwrap_err();
    assert_eq!(e, PkgIndexError::InvalidPadding);
}

#[test]
fn short_index_inputs_yield_truncated() {
    let e = PkgIndex::new(&[], "i.pkg", &[[0u8; 16]]).unwrap_err();
    assert_eq!(e, PkgIndexError::Truncated);
    let e = PkgIndex::new(&[2, 0], "i.pkg", &[[0u8; 16]]).unwrap_err();
    assert_eq!(e, PkgIndexError::Truncated);
    let e = PkgIndex::new(&[2, 0, 2], "i.pkg", &[[0u8; 16]]).unwrap_err();
    assert_eq!(e, PkgIndexError::Truncated);
    let e = PkgIndex::new(&[2, 0, 2, 0, 0, 0], "i.pkg", &[[0u8; 16]]).unwrap_err();
    assert_eq!(e, PkgIndexError::Truncated);
}
