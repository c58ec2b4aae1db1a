//! Decoder for index packages: a small plaintext header and one encrypted
//! blob that decodes to a CRLF-joined catalog of file names.
//!
//! On-disk layout: `[2 bytes version LE][1 byte cipher][1 byte key
//! selector][4 bytes declared length LE][ciphertext]`.  The blob is
//! decrypted with AES-128-CBC, a zero IV and standard padding removal; the
//! key is `index_key(selector, key_table[selector / 2], file_name)`.

use crate::crypto::{aes_cbc_decrypt_pkcs7, aes_decrypt_pkcs7, index_key, spec_index_key, zero_iv,
    zero_iv_exec};
use crate::text::{crlf_pos, find_crlf, spec_split_crlf, utf8_to_string};
use vstd::prelude::*;
use vstd::utf8::{decode_utf8, valid_utf8};

verus! {

broadcast use vstd::group_vstd_default;

/// The size of the plaintext header that precedes the ciphertext blob:
/// version, cipher, key selector and declared length.
pub const PKG_INDEX_HEADER_SIZE: usize = 2 + 1 + 1 + 4;

/// The container version named by the 2-byte version code.
#[derive(Debug, PartialEq, Eq)]
pub enum PkgIndexVersion {
    /// The single supported version, code 2.
    TFO,
    /// Any other code; decoding stops on it.
    Unsupported(u16),
}

/// The cipher named by the 1-byte cipher code.
#[derive(Debug, PartialEq, Eq)]
pub enum PkgIndexCipher {
    /// The single supported cipher, code 2: AES-128-CBC with standard
    /// padding.
    AES,
    /// Any other code; decoding stops on it.
    Unsupported(u8),
}

/// Why an index package failed to decode.
#[derive(Debug, PartialEq, Eq)]
pub enum PkgIndexError {
    /// The input ends before the plaintext header does.
    Truncated,
    /// The version code is not the supported value; no decryption is
    /// attempted.
    InvalidVersion(PkgIndexVersion),
    /// The cipher code is not the supported value; no decryption is
    /// attempted.
    InvalidAlgorithm(PkgIndexCipher),
    /// The ciphertext length is no block multiple, or the decrypted
    /// padding is malformed: the wrong key, or a corrupt file.
    InvalidPadding,
    /// The decrypted catalog is not valid text.
    InvalidText,
}

/// A decoded index package: its version and cipher markers, the key
/// selector it was encrypted under, and the plaintext file-name catalog in
/// stored order (duplicates and empty trailing entries retained).
#[derive(Debug)]
pub struct PkgIndex {
    /// The recognized container version.
    pub version: PkgIndexVersion,
    /// The key selector: its half names the key-table slot, its parity the
    /// digest ordering.
    pub key_num: u8,
    /// The recognized cipher.
    pub cipher: PkgIndexCipher,
    /// The catalog: one name per CRLF-separated record.
    pub filenames: Vec<String>,
}

/// Whether every CRLF-separated piece of the decrypted catalog is valid
/// text.
pub open spec fn pieces_valid(pieces: Seq<Seq<u8>>) -> bool {
    forall|j: int| 0 <= j < pieces.len() ==> valid_utf8(#[trigger] pieces[j])
}

/// How a decoded index package relates to its inputs: the supported
/// markers, the selector as stored, and one decoded name per piece of the
/// decrypted catalog.
pub open spec fn index_matches(x: PkgIndex, sel: u8, pieces: Seq<Seq<u8>>) -> bool {
    &&& x.version == PkgIndexVersion::TFO
    &&& x.cipher == PkgIndexCipher::AES
    &&& x.key_num == sel
    &&& x.filenames.deep_view() == pieces.map_values(|p: Seq<u8>| decode_utf8(p))
}

/// One piece that is not valid text spoils the whole catalog.
proof fn lemma_invalid_piece(pieces: Seq<Seq<u8>>, k: int)
    requires
        0 <= k < pieces.len(),
        !valid_utf8(pieces[k]),
    ensures
        !pieces_valid(pieces),
{
}

/// The outcome owed once the plaintext header was accepted: decryption
/// decides between `InvalidPadding` and the catalog, and the catalog's
/// text decides between `InvalidText` and success.
pub open spec fn index_payload_result(
    r: Result<PkgIndex, PkgIndexError>,
    ek: Seq<u8>,
    ct: Seq<u8>,
    sel: u8,
) -> bool {
    match aes_cbc_decrypt_pkcs7(ek, zero_iv(), ct) {
        Option::None => r == Err::<PkgIndex, PkgIndexError>(PkgIndexError::InvalidPadding),
        Option::Some(pt) => {
            if pieces_valid(spec_split_crlf(pt)) {
                r matches Ok(x) && index_matches(x, sel, spec_split_crlf(pt))
            } else {
                r == Err::<PkgIndex, PkgIndexError>(PkgIndexError::InvalidText)
            }
        },
    }
}

impl PkgIndex {
    /// Decodes an index package from `input`.  `fname` is the package's
    /// own file name, used only as key-derivation input; `keys` is the
    /// externally supplied table of key material, indexed by half the key
    /// selector.  A selector pointing past the table is a caller
    /// configuration error and is excluded up front; every format defect
    /// is reported as an error.
    ///
    /// The declared-length field is informational and is not checked
    /// against the actual ciphertext length.
    #[verifier::loop_isolation(false)]
    pub fn new(input: &[u8], fname: &str, keys: &[[u8; 16]]) -> (r: Result<
        PkgIndex,
        PkgIndexError,
    >)
        requires
            input@.len() >= 8 && vstd::bytes::spec_u16_from_le_bytes(input@.subrange(0, 2)) == 2
                && input@[2] == 2 ==> (input@[3] as int) / 2 < keys@.len(),
        ensures
            ({
                let code = vstd::bytes::spec_u16_from_le_bytes(input@.subrange(0, 2));
                let sel = input@[3];
                let ek = spec_index_key(sel, keys@[sel as int / 2]@, fname@);
                &&& input@.len() < 2 ==> r == Err::<PkgIndex, PkgIndexError>(
                    PkgIndexError::Truncated,
                )
                &&& input@.len() >= 2 && code != 2 ==> r == Err::<PkgIndex, PkgIndexError>(
                    PkgIndexError::InvalidVersion(PkgIndexVersion::Unsupported(code)),
                )
                &&& input@.len() == 2 && code == 2 ==> r == Err::<PkgIndex, PkgIndexError>(
                    PkgIndexError::Truncated,
                )
                &&& input@.len() >= 3 && code == 2 && input@[2] != 2 ==> r == Err::<
                    PkgIndex,
                    PkgIndexError,
                >(PkgIndexError::InvalidAlgorithm(PkgIndexCipher::Unsupported(input@[2])))
                &&& 3 <= input@.len() < 8 && code == 2 && input@[2] == 2 ==> r == Err::<
                    PkgIndex,
                    PkgIndexError,
                >(PkgIndexError::Truncated)
                &&& input@.len() >= 8 && code == 2 && input@[2] == 2 ==> index_payload_result(
                    r,
                    ek,
                    input@.skip(8),
                    sel,
                )
            }),
    {
        if input.len() < 2 {
            return Err(PkgIndexError::Truncated);
        }
        let code = vstd::bytes::u16_from_le_bytes(vstd::slice::slice_subrange(input, 0, 2));
        if code != 2 {
            return Err(PkgIndexError::InvalidVersion(PkgIndexVersion::Unsupported(code)));
        }
        if input.len() < 3 {
            return Err(PkgIndexError::Truncated);
        }
        let cipher_code = *vstd::slice::slice_index_get(input, 2);
        if cipher_code != 2 {
            return Err(PkgIndexError::InvalidAlgorithm(PkgIndexCipher::Unsupported(cipher_code)));
        }
        if input.len() < 8 {
            return Err(PkgIndexError::Truncated);
        }
        let key_num = *vstd::slice::slice_index_get(input, 3);
        // The 4-byte declared payload length at bytes 4..8 is informational
        // and deliberately not compared with the ciphertext length.
        let key_material = vstd::slice::slice_index_get(keys, (key_num / 2) as usize);
        let ek = index_key(key_num, key_material, fname);
        let iv = zero_iv_exec();
        let ct = vstd::slice::slice_subrange(input, 8, input.len());
        proof {
            assert(ct@ =~= input@.skip(8));
        }
        let ghost ek_spec = spec_index_key(input@[3], keys@[input@[3] as int / 2]@, fname@);
        let pt_opt = aes_decrypt_pkcs7(ek.as_slice(), iv.as_slice(), ct);
        proof {
            assert(ek@ == ek_spec);
            assert(pt_opt.deep_view() == aes_cbc_decrypt_pkcs7(ek_spec, zero_iv(), input@.skip(8)));
        }
        if pt_opt.is_none() {
            return Err(PkgIndexError::InvalidPadding);
        }
        let pt = pt_opt.unwrap();
        proof {
            assert(pt.deep_view() =~= pt@);
            assert(aes_cbc_decrypt_pkcs7(ek_spec, zero_iv(), input@.skip(8)) == Some(pt@));
        }
        let ghost pieces = spec_split_crlf(pt@);
        let _pt_len = pt.len();
        let mut filenames: Vec<String> = Vec::new();
        let mut start: usize = 0;
        let mut more = true;
        proof {
            assert(pt@.skip(0) =~= pt@);
            assert(pieces.skip(0) =~= pieces);
        }
        while more
            invariant
                start <= pt@.len(),
                filenames@.len() <= pieces.len(),
                pieces.skip(filenames@.len() as int) == spec_split_crlf(pt@.skip(start as int)),
                !more ==> crlf_pos(pt@.skip(start as int)) == -1,
                forall|j: int|
                    0 <= j < filenames@.len() ==> valid_utf8(#[trigger] pieces[j])
                        && filenames.deep_view()[j] == decode_utf8(pieces[j]),
            decreases pt@.len() - start + (if more { 1int } else { 0int }),
        {
            let ghost k = filenames@.len() as int;
            let ghost rest = pt@.skip(start as int);
            match find_crlf(pt.as_slice(), start) {
                None => {
                    more = false;
                },
                Some(p) => {
                    proof {
                        crate::text::lemma_split_crlf_len(pt@.skip(p + 2));
                        assert(crlf_pos(rest) == p - start);
                        assert(spec_split_crlf(rest) == seq![rest.take(p - start)]
                            + spec_split_crlf(rest.skip(p - start + 2)));
                        assert(rest.take(p - start) =~= pt@.subrange(start as int, p as int));
                        assert(rest.skip(p - start + 2) =~= pt@.skip(p + 2));
                        assert(pieces.skip(k).len() >= 2);
                        assert(pieces.skip(k + 1) =~= pieces.skip(k).skip(1));
                        assert(pieces.skip(k).skip(1) =~= spec_split_crlf(pt@.skip(p + 2)));
                        assert(pieces[k] == pieces.skip(k)[0]);
                        assert(pieces[k] == pt@.subrange(start as int, p as int));
                    }
                    let piece = vstd::slice::slice_subrange(pt.as_slice(), start, p);
                    let s_opt = utf8_to_string(vstd::slice::slice_to_vec(piece));
                    if s_opt.is_none() {
                        proof {
                            lemma_invalid_piece(pieces, k);
                        }
                        return Err(PkgIndexError::InvalidText);
                    }
                    filenames.push(s_opt.unwrap());
                    start = p + 2;
                },
            }
        }
        let ghost k = filenames@.len() as int;
        let ghost rest = pt@.skip(start as int);
        proof {
            assert(spec_split_crlf(rest) =~= seq![rest]);
            assert(pieces.len() == k + 1);
            assert(pieces.skip(k)[0] == pieces[k]);
            assert(pieces[k] == rest);
            assert(rest =~= pt@.subrange(start as int, pt@.len() as int));
        }
        let last_piece = vstd::slice::slice_subrange(pt.as_slice(), start, pt.len());
        let s_opt = utf8_to_string(vstd::slice::slice_to_vec(last_piece));
        if s_opt.is_none() {
            proof {
                lemma_invalid_piece(pieces, k);
            }
            return Err(PkgIndexError::InvalidText);
        }
        filenames.push(s_opt.unwrap());
        proof {
            assert(filenames.deep_view() =~= pieces.map_values(|p: Seq<u8>| decode_utf8(p)));
        }
        Ok(PkgIndex { version: PkgIndexVersion::TFO, key_num, cipher: PkgIndexCipher::AES, filenames })
    }
}

} // verus!
