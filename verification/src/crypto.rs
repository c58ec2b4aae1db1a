//! Key derivation and the cipher primitives shared by both package decoders.
//!
//! Keys are derived from MD5 digests; the digest itself is an outside
//! primitive whose result is only named here (`md5_of`), while the hex
//! rendering and the concatenation rules around it are verified code.
//! AES-128-CBC decryption is likewise an outside primitive behind the
//! wrappers at the bottom of this module.

use block_modes::BlockMode;
use vstd::prelude::*;
use vstd::utf8::encode_utf8;

verus! {

broadcast use vstd::group_vstd_default;

/// The 16-byte MD5 digest of a byte sequence, as computed by the `md5`
/// crate.  The digest is a function of the input bytes alone; nothing
/// further is assumed of it.
pub uninterp spec fn md5_of(data: Seq<u8>) -> Seq<u8>;

/// Relies on `md5::compute`: one 16-byte digest over the whole input,
/// a function of the input bytes alone.
#[verifier::external_body]
fn md5_digest(data: &[u8]) -> (r: [u8; 16])
    ensures
        r@ == md5_of(data@),
{
    md5::compute(data).0
}

/// The lower-case hexadecimal ASCII digit for a value below 16.
pub open spec fn hex_digit(n: u8) -> u8
    recommends
        n < 16,
{
    if n < 10 {
        (0x30 + n) as u8
    } else {
        (0x57 + n) as u8
    }
}

/// `true` exactly for the bytes that can appear in lower-case hexadecimal
/// text: `'0'..='9'` and `'a'..='f'`.
pub open spec fn is_hex_ascii(b: u8) -> bool {
    (0x30 <= b && b <= 0x39) || (0x61 <= b && b <= 0x66)
}

/// The lower-case hexadecimal rendering of a byte sequence: two ASCII
/// digits per byte, high nibble first.
pub open spec fn hex_bytes(s: Seq<u8>) -> Seq<u8> {
    Seq::new(
        2 * s.len(),
        |i: int|
            if i % 2 == 0 {
                hex_digit(s[i / 2] / 16)
            } else {
                hex_digit(s[i / 2] % 16)
            },
    )
}

/// The data-package key for a secret and a target file name: the first 16
/// ASCII characters of the lower-case hex rendering of the MD5 digest of
/// the secret's bytes followed by the name's bytes.  The key is hex *text*,
/// not raw digest bytes: a format-mandated quirk.
pub open spec fn spec_data_key(secret: Seq<char>, fname: Seq<char>) -> Seq<u8> {
    hex_bytes(md5_of(encode_utf8(secret) + encode_utf8(fname))).take(16)
}

/// The fixed 4-byte tag that prefixes every index-key digest input.
pub open spec fn key_tag() -> Seq<u8> {
    seq![2u8, 0u8, 0u8, 0u8]
}

/// The index-package key: the raw MD5 digest of the tag followed by key
/// material and file name, whose order depends only on the parity of the
/// selector (odd: key then name; even: name then key).
pub open spec fn spec_index_key(selector: u8, key_material: Seq<u8>, fname: Seq<char>) -> Seq<u8> {
    if selector & 1 != 0 {
        md5_of(key_tag() + key_material + encode_utf8(fname))
    } else {
        md5_of(key_tag() + encode_utf8(fname) + key_material)
    }
}

/// Selector values of equal parity derive the same index key from the same
/// key material and file name; the selector enters the digest only through
/// its low bit.
pub proof fn lemma_index_key_parity(s1: u8, s2: u8, key_material: Seq<u8>, fname: Seq<char>)
    requires
        s1 & 1 == s2 & 1,
    ensures
        spec_index_key(s1, key_material, fname) == spec_index_key(s2, key_material, fname),
{
}

/// Executable rendering of one nibble, proved against `hex_digit`.
fn hex_digit_exec(n: u8) -> (r: u8)
    requires
        n < 16,
    ensures
        r == hex_digit(n),
{
    if n < 10 {
        0x30 + n
    } else {
        0x57 + n
    }
}

/// Hex digits are hex ASCII.
proof fn lemma_hex_digit_ascii(n: u8)
    requires
        n < 16,
    ensures
        is_hex_ascii(hex_digit(n)),
{
}

/// Appends all of `src` to `dst`.
pub(crate) fn extend_bytes(dst: &mut Vec<u8>, src: &[u8])
    ensures
        final(dst)@ == old(dst)@ + src@,
{
    let ghost orig = dst@;
    let mut i: usize = 0;
    while i < src.len()
        invariant
            i <= src@.len(),
            dst@ == orig + src@.take(i as int),
        decreases src@.len() - i,
    {
        dst.push(src[i]);
        i = i + 1;
        proof {
            assert(orig + src@.take(i as int) =~= (orig + src@.take(i - 1)).push(src@[i - 1]));
        }
    }
    proof {
        assert(orig + src@.take(src@.len() as int) =~= orig + src@);
    }
}

/// Derives a data-package key: exactly 16 bytes, each a lower-case
/// hexadecimal ASCII character, determined by the secret and the file name
/// alone (see `spec_data_key`).
pub fn data_key(key: &str, fname: &str) -> (r: Vec<u8>)
    ensures
        r@ == spec_data_key(key@, fname@),
        r@.len() == 16,
        forall|i: int| 0 <= i < r@.len() ==> is_hex_ascii(#[trigger] r@[i]),
{
    let mut buf: Vec<u8> = Vec::new();
    extend_bytes(&mut buf, key.as_bytes());
    extend_bytes(&mut buf, fname.as_bytes());
    proof {
        assert(buf@ =~= encode_utf8(key@) + encode_utf8(fname@));
    }
    let digest = md5_digest(buf.as_slice());
    let ghost full = hex_bytes(md5_of(buf@));
    let mut out: Vec<u8> = Vec::new();
    let mut i: usize = 0;
    while i < 8
        invariant
            i <= 8,
            digest@ == md5_of(buf@),
            full == hex_bytes(md5_of(buf@)),
            out@ == full.take(2 * i as int),
        decreases 8 - i,
    {
        let b = digest[i];
        out.push(hex_digit_exec(b / 16));
        out.push(hex_digit_exec(b % 16));
        i = i + 1;
        proof {
            assert(out@ =~= full.take(2 * i as int));
        }
    }
    proof {
        assert(out@ =~= spec_data_key(key@, fname@));
        assert forall|j: int| 0 <= j < out@.len() implies is_hex_ascii(#[trigger] out@[j]) by {
            lemma_hex_digit_ascii(md5_of(buf@)[j / 2] / 16);
            lemma_hex_digit_ascii(md5_of(buf@)[j / 2] % 16);
        }
    }
    out
}

/// Derives an index-package key: the raw 16-byte MD5 digest over the fixed
/// tag, the key material and the file name, ordered by the selector's
/// parity (see `spec_index_key`).
pub fn index_key(idx: u8, key: &[u8; 16], fname: &str) -> (r: Vec<u8>)
    ensures
        r@ == spec_index_key(idx, key@, fname@),
        r@.len() == 16,
{
    let mut buf: Vec<u8> = Vec::new();
    buf.push(2);
    buf.push(0);
    buf.push(0);
    buf.push(0);
    proof {
        assert(buf@ =~= key_tag());
    }
    if (idx & 1) != 0 {
        extend_bytes(&mut buf, key.as_slice());
        extend_bytes(&mut buf, fname.as_bytes());
        proof {
            assert(buf@ =~= key_tag() + key@ + encode_utf8(fname@));
        }
    } else {
        extend_bytes(&mut buf, fname.as_bytes());
        extend_bytes(&mut buf, key.as_slice());
        proof {
            assert(buf@ =~= key_tag() + encode_utf8(fname@) + key@);
        }
    }
    let digest = md5_digest(buf.as_slice());
    let r = vstd::slice::slice_to_vec(digest.as_slice());
    r
}

/// The plaintext that AES-128-CBC decryption *without* padding removal
/// yields for a key, an initialization vector and a ciphertext; a function
/// of those three alone.
pub uninterp spec fn aes_cbc_decrypt_nopad(key: Seq<u8>, iv: Seq<u8>, ct: Seq<u8>) -> Seq<u8>;

/// Relies on `block_modes::Cbc::<Aes128, NoPadding>`, constructed with
/// `new_from_slices` (infallible for 16-byte key and IV) and applied with
/// `decrypt_vec`: on a ciphertext whose length is a multiple of the 16-byte
/// block it always succeeds, returns exactly as many bytes as it was given
/// (`NoPadding::unpad` strips nothing), and the result is a function of
/// key, IV and ciphertext alone.
#[verifier::external_body]
pub(crate) fn aes_decrypt_nopad(key: &[u8], iv: &[u8], ct: &[u8]) -> (r: Vec<u8>)
    requires
        key@.len() == 16,
        iv@.len() == 16,
        ct@.len() % 16 == 0,
    ensures
        r@ == aes_cbc_decrypt_nopad(key@, iv@, ct@),
        r@.len() == ct@.len(),
{
    let cipher = block_modes::Cbc::<aes::Aes128, block_modes::block_padding::NoPadding>::new_from_slices(
        key, iv,
    ).unwrap();
    cipher.decrypt_vec(ct).unwrap()
}

/// The outcome of AES-128-CBC decryption *with* PKCS#7 padding removal:
/// `None` where the ciphertext length is not a block multiple or the
/// decrypted padding is malformed, otherwise the unpadded plaintext; a
/// function of key, IV and ciphertext alone.
pub uninterp spec fn aes_cbc_decrypt_pkcs7(key: Seq<u8>, iv: Seq<u8>, ct: Seq<u8>) -> Option<
    Seq<u8>,
>;

/// Relies on `block_modes::Cbc::<Aes128, Pkcs7>`, constructed with
/// `new_from_slices` (infallible for 16-byte key and IV) and applied with
/// `decrypt_vec`: it errs exactly on a length that is no block multiple or
/// on malformed decrypted padding, and outcome and plaintext are a function
/// of key, IV and ciphertext alone.
#[verifier::external_body]
pub(crate) fn aes_decrypt_pkcs7(key: &[u8], iv: &[u8], ct: &[u8]) -> (r: Option<Vec<u8>>)
    requires
        key@.len() == 16,
        iv@.len() == 16,
    ensures
        r.deep_view() == aes_cbc_decrypt_pkcs7(key@, iv@, ct@),
{
    let cipher = block_modes::Cbc::<aes::Aes128, block_modes::block_padding::Pkcs7>::new_from_slices(
        key, iv,
    ).unwrap();
    cipher.decrypt_vec(ct).ok()
}

/// The all-zero initialization vector that every decryption in this format
/// uses.
pub open spec fn zero_iv() -> Seq<u8> {
    Seq::new(16, |i: int| 0u8)
}

/// Builds the fixed all-zero initialization vector.
pub(crate) fn zero_iv_exec() -> (r: [u8; 16])
    ensures
        r@ == zero_iv(),
{
    let r: [u8; 16] = [0; 16];
    proof {
        assert(r@ =~= zero_iv());
    }
    r
}

} // verus!
