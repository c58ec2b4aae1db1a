//! Decoder library for a two-tier encrypted game-archive container format.
//!
//! A *data package* carries an encrypted header and a run of encrypted
//! per-file records; an *index package* carries a small plaintext header and
//! one encrypted blob that decodes to a CRLF-joined catalog of file names.
//! Both are decrypted with AES-128-CBC under keys derived from shared secrets
//! by an MD5-based scheme.  Every byte-level layout and key-derivation rule is
//! stated in the contracts of the public functions.

pub mod crypto;
pub mod pkg;
pub mod text;
