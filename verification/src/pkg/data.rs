//! Decoder for data packages: an encrypted 16-byte header followed by one
//! encrypted 288-byte record per file.
//!
//! On-disk layout: `[32 bytes hash text][1 byte pad][16 bytes encrypted
//! header][288 bytes encrypted entry] * N`, with the payload bytes of the
//! entries stored after the header region.  Header and entries are
//! decrypted with AES-128-CBC, a zero IV and *no* padding removal; the key
//! is `data_key(header_secret, file_name)`.

use crate::crypto::{aes_cbc_decrypt_nopad, aes_decrypt_nopad, data_key, spec_data_key, zero_iv,
    zero_iv_exec};
use crate::text::{find_nul, nul_pos, utf8_to_string};
use vstd::prelude::*;
use vstd::utf8::{decode_utf8, valid_utf8};

verus! {

broadcast use vstd::group_vstd_default;

/// Why a data package failed to decode.
#[derive(Debug, PartialEq, Eq)]
pub enum PkgDataError {
    /// The input ends before the header region does.
    Truncated,
    /// The 32-byte integrity-hash field is not valid text.
    InvalidHash,
    /// The decrypted header does not start with four zero bytes: the wrong
    /// secret, or a corrupt or foreign file.
    InvalidHeaderKey,
    /// A decrypted entry-name field is not valid text.
    InvalidEntryName,
}

/// One decrypted per-file record.
#[derive(Debug)]
pub struct PkgFileEntry {
    /// The file's name, taken from the NUL-terminated 260-byte name field.
    pub file_name: String,
    /// Offset of the payload, from the end of the header region.
    pub seek: u64,
    /// Stored (encrypted, block-padded) payload size.
    pub size_encrypted: u64,
    /// Logical (decrypted) payload size.
    pub size: u64,
    /// Opaque flags byte; likely a compression indicator, not interpreted.
    pub unk_285: u8,
    /// Whether the payload is encrypted.
    pub encrypted: bool,
}

/// A decoded data package: its validated header and its file records, in
/// on-disk order.
#[derive(Debug)]
pub struct PkgData {
    /// The 32-character integrity-hash text from the start of the package.
    pub hash: String,
    /// Number of per-file records.
    pub file_count: u32,
    /// The four reserved header bytes, copied verbatim.
    pub unk: [u8; 4],
    /// The data secret, kept for deriving per-file payload keys.
    pub data_key: String,
    /// Size in bytes of the whole header region; payload offsets are
    /// relative to its end.
    pub total_header_size: usize,
    /// The per-file records, in on-disk order.
    pub files: Vec<PkgFileEntry>,
}

/// The size of the header region for a record count: the 33-byte hash
/// field, the 16-byte encrypted header and one 288-byte block per record.
pub open spec fn spec_total_header_size(file_count: u32) -> int {
    33 + 16 + 288 * file_count
}

/// The decrypted 16-byte header block of `input` under header key `hk`.
pub open spec fn spec_header_plain(input: Seq<u8>, hk: Seq<u8>) -> Seq<u8> {
    aes_cbc_decrypt_nopad(hk, zero_iv(), input.subrange(33, 49))
}

/// The decrypted 288-byte block of record `i` of `input` under header key
/// `hk`.
pub open spec fn spec_entry_plain(input: Seq<u8>, hk: Seq<u8>, i: int) -> Seq<u8> {
    aes_cbc_decrypt_nopad(hk, zero_iv(), input.subrange(49 + 288 * i, 49 + 288 * (i + 1)))
}

/// The name bytes of a decrypted record: the 260-byte name field up to its
/// first NUL, or all of it where no NUL occurs.
pub open spec fn entry_name_bytes(pt: Seq<u8>) -> Seq<u8> {
    pt.take(260).take(nul_pos(pt.take(260)))
}

/// Whether the name bytes of a decrypted record are valid text.
pub open spec fn entry_name_ok(pt: Seq<u8>) -> bool {
    valid_utf8(entry_name_bytes(pt))
}

/// How one decoded record relates to its decrypted 288-byte block: bytes
/// 0-259 are the NUL-terminated name field, byte 260 a structural gap,
/// bytes 261-284 the three little-endian 64-bit sizes, byte 285 the opaque
/// flags byte and byte 286 the encrypted flag (nonzero meaning true).
pub open spec fn entry_matches(e: PkgFileEntry, pt: Seq<u8>) -> bool {
    &&& e.file_name@ == decode_utf8(entry_name_bytes(pt))
    &&& e.seek == vstd::bytes::spec_u64_from_le_bytes(pt.subrange(261, 269))
    &&& e.size_encrypted == vstd::bytes::spec_u64_from_le_bytes(pt.subrange(269, 277))
    &&& e.size == vstd::bytes::spec_u64_from_le_bytes(pt.subrange(277, 285))
    &&& e.unk_285 == pt[285]
    &&& e.encrypted == (pt[286] != 0)
}

impl PkgData {
    /// A decoded package is internally consistent: its header-region size
    /// is computed from its own record count, which its record list
    /// matches.
    pub open spec fn wf(self) -> bool {
        &&& self.total_header_size == spec_total_header_size(self.file_count)
        &&& self.files@.len() == self.file_count
    }

    /// Decodes the header region of a data package from `input`, which
    /// holds the whole package (payload bytes after the header region are
    /// ignored).  `fname` is the package's display name, used only as
    /// key-derivation input; `header` and `data` are the two secrets, the
    /// second kept verbatim for deriving per-file payload keys later.
    ///
    /// The contract walks the exact failure order of the format: a short
    /// input, a non-text hash field, a short input again, a decrypted
    /// header that does not start with four zero bytes, a short run of
    /// records, a non-text record name; otherwise every field of the
    /// result is pinned to the decrypted bytes.
    #[verifier::loop_isolation(false)]
    pub fn new(input: &[u8], fname: &str, header: &str, data: &str) -> (r: Result<
        PkgData,
        PkgDataError,
    >)
        ensures
            ({
                let hk = spec_data_key(header@, fname@);
                let hpt = spec_header_plain(input@, hk);
                let n = vstd::bytes::spec_u32_from_le_bytes(hpt.subrange(4, 8));
                let hash_valid = valid_utf8(input@.subrange(0, 32));
                let zeros = hpt.subrange(0, 4) == seq![0u8, 0u8, 0u8, 0u8];
                let names_ok = forall|i: int|
                    0 <= i < n ==> entry_name_ok(#[trigger] spec_entry_plain(input@, hk, i));
                &&& input@.len() < 33 ==> r == Err::<PkgData, PkgDataError>(PkgDataError::Truncated)
                &&& input@.len() >= 33 && !hash_valid ==> r == Err::<PkgData, PkgDataError>(
                    PkgDataError::InvalidHash,
                )
                &&& 33 <= input@.len() < 49 && hash_valid ==> r == Err::<PkgData, PkgDataError>(
                    PkgDataError::Truncated,
                )
                &&& input@.len() >= 49 && hash_valid && !zeros ==> r == Err::<PkgData, PkgDataError>(
                    PkgDataError::InvalidHeaderKey,
                )
                &&& 49 <= input@.len() < 49 + 288 * n && hash_valid && zeros ==> r == Err::<
                    PkgData,
                    PkgDataError,
                >(PkgDataError::Truncated)
                &&& input@.len() >= 49 + 288 * n && hash_valid && zeros && !names_ok ==> r == Err::<
                    PkgData,
                    PkgDataError,
                >(PkgDataError::InvalidEntryName)
                &&& input@.len() >= 49 + 288 * n && hash_valid && zeros && names_ok ==> {
                    &&& r matches Ok(d)
                    &&& r matches Ok(d) ==> {
                        &&& d.wf()
                        &&& d.hash@ == decode_utf8(input@.subrange(0, 32))
                        &&& d.file_count == n
                        &&& d.unk@ == hpt.subrange(8, 12)
                        &&& d.data_key@ == data@
                        &&& d.total_header_size == spec_total_header_size(n)
                        &&& forall|i: int|
                            0 <= i < n ==> entry_matches(
                                #[trigger] d.files@[i],
                                spec_entry_plain(input@, hk, i),
                            )
                    }
                }
            }),
    {
        if input.len() < 33 {
            return Err(PkgDataError::Truncated);
        }
        let hash_bytes = vstd::slice::slice_subrange(input, 0, 32);
        let hash = match utf8_to_string(vstd::slice::slice_to_vec(hash_bytes)) {
            Some(s) => s,
            None => {
                return Err(PkgDataError::InvalidHash);
            },
        };
        if input.len() < 49 {
            return Err(PkgDataError::Truncated);
        }
        let header_key = data_key(header, fname);
        let iv = zero_iv_exec();
        let hct = vstd::slice::slice_subrange(input, 33, 49);
        let hpt = aes_decrypt_nopad(header_key.as_slice(), iv.as_slice(), hct);
        let ghost hk = spec_data_key(header@, fname@);
        if !(hpt[0] == 0 && hpt[1] == 0 && hpt[2] == 0 && hpt[3] == 0) {
            proof {
                let zs = seq![0u8, 0u8, 0u8, 0u8];
                assert(exists|j: int|
                    0 <= j < 4 && spec_header_plain(input@, hk).subrange(0, 4)[j] != zs[j]);
            }
            return Err(PkgDataError::InvalidHeaderKey);
        }
        proof {
            assert(spec_header_plain(input@, hk).subrange(0, 4) =~= seq![0u8, 0u8, 0u8, 0u8]);
        }
        let file_count = vstd::bytes::u32_from_le_bytes(
            vstd::slice::slice_subrange(hpt.as_slice(), 4, 8),
        );
        let unk: [u8; 4] = [hpt[8], hpt[9], hpt[10], hpt[11]];
        proof {
            assert(unk@ =~= spec_header_plain(input@, hk).subrange(8, 12));
        }
        let need: u64 = 49 + 288 * (file_count as u64);
        if (input.len() as u64) < need {
            return Err(PkgDataError::Truncated);
        }
        let total_header_size: usize = need as usize;
        let n = file_count as usize;
        let mut files: Vec<PkgFileEntry> = Vec::new();
        let mut i: usize = 0;
        while i < n
            invariant
                i <= n,
                files@.len() == i,
                forall|j: int|
                    0 <= j < i ==> entry_name_ok(#[trigger] spec_entry_plain(input@, hk, j))
                        && entry_matches(files@[j], spec_entry_plain(input@, hk, j)),
            decreases n - i,
        {
            let off: usize = 49 + 288 * i;
            let ct = vstd::slice::slice_subrange(input, off, off + 288);
            let pt = aes_decrypt_nopad(header_key.as_slice(), iv.as_slice(), ct);
            let ghost ptg = spec_entry_plain(input@, hk, i as int);
            proof {
                assert(ct@ =~= input@.subrange(49 + 288 * (i as int), 49 + 288 * (i as int + 1)));
            }
            let name_field = vstd::slice::slice_subrange(pt.as_slice(), 0, 260);
            let npos = find_nul(name_field);
            proof {
                assert(name_field@ =~= ptg.take(260));
            }
            let name_bytes = vstd::slice::slice_subrange(name_field, 0, npos);
            proof {
                assert(name_bytes@ =~= entry_name_bytes(ptg));
            }
            let file_name = match utf8_to_string(vstd::slice::slice_to_vec(name_bytes)) {
                Some(s) => s,
                None => {
                    return Err(PkgDataError::InvalidEntryName);
                },
            };
            let seek = vstd::bytes::u64_from_le_bytes(
                vstd::slice::slice_subrange(pt.as_slice(), 261, 269),
            );
            let size_encrypted = vstd::bytes::u64_from_le_bytes(
                vstd::slice::slice_subrange(pt.as_slice(), 269, 277),
            );
            let size = vstd::bytes::u64_from_le_bytes(
                vstd::slice::slice_subrange(pt.as_slice(), 277, 285),
            );
            let unk_285 = pt[285];
            let encrypted = pt[286] != 0;
            files.push(
                PkgFileEntry { file_name, seek, size_encrypted, size, unk_285, encrypted },
            );
            i = i + 1;
        }
        Ok(
            PkgData {
                hash,
                file_count,
                unk,
                data_key: data.to_owned(),
                total_header_size,
                files,
            },
        )
    }
}

/// The verified half of the header round trip: packing a file count and
/// four reserved bytes into the 12-byte header payload (four zero bytes,
/// then the count little-endian, then the reserved bytes) and parsing that
/// payload back recovers both exactly.  The cipher halves stand outside
/// this statement.
pub proof fn lemma_header_payload_round_trip(file_count: u32, reserved: Seq<u8>, tail: Seq<u8>)
    requires
        reserved.len() == 4,
    ensures
        ({
            let pt = seq![0u8, 0u8, 0u8, 0u8] + vstd::bytes::spec_u32_to_le_bytes(file_count)
                + reserved + tail;
            &&& pt.subrange(0, 4) == seq![0u8, 0u8, 0u8, 0u8]
            &&& vstd::bytes::spec_u32_from_le_bytes(pt.subrange(4, 8)) == file_count
            &&& pt.subrange(8, 12) == reserved
        }),
{
    vstd::bytes::lemma_auto_spec_u32_to_from_le_bytes();
    let pt = seq![0u8, 0u8, 0u8, 0u8] + vstd::bytes::spec_u32_to_le_bytes(file_count) + reserved
        + tail;
    assert(pt.subrange(0, 4) =~= seq![0u8, 0u8, 0u8, 0u8]);
    assert(pt.subrange(4, 8) =~= vstd::bytes::spec_u32_to_le_bytes(file_count));
    assert(pt.subrange(8, 12) =~= reserved);
}

} // verus!
