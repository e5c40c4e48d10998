//! Checking a downloaded file against the checksum that was published for
//! it.

use crate::assoc::Key;
use sha2::Digest;
use vstd::prelude::*;

verus! {

/// Why a file was turned down.
#[derive(Clone, Copy, Debug, PartialEq, Eq, Structural)]
pub enum VerifyError {
    /// The file does not have the expected checksum.
    InvalidChecksum,
}

impl VerifyError {
    /// What went wrong, in words.
    pub fn message(&self) -> (s: String)
        ensures
            s@ == "Invalid checksum for bin file"@,
    {
        "Invalid checksum for bin file".to_owned()
    }
}

/// The SHA-256 digest of `data`.
pub uninterp spec fn sha256_digest(data: Seq<u8>) -> Seq<u8>;

/// Calls `sha2::Sha256::digest`, which hashes the whole of `data` in one
/// go, and hands its 32 bytes on as an array. Nothing is proved of the
/// digest but that it depends on the bytes of `data` alone.
#[verifier::external_body]
fn sha256(data: &[u8]) -> (digest: [u8; 32])
    ensures
        digest@ == sha256_digest(data@),
{
    sha2::Sha256::digest(data).into()
}

/// A verifier of the signature or checksum of a file.
pub trait AppVerifier: 'static + Clone {
    type Parameters;

    /// Verifies `contents`, the bytes of the file, using `parameters`, and
    /// returns an error where this fails for any reason.
    fn verify(contents: &[u8], parameters: Self::Parameters) -> Result<(), VerifyError>;
}

/// Checksum verifier that uses SHA-256.
#[derive(Clone)]
pub struct Sha256Verifier;

impl AppVerifier for Sha256Verifier {
    /// The checksum.
    type Parameters = [u8; 32];

    fn verify(contents: &[u8], expected_hash: [u8; 32]) -> (result: Result<(), VerifyError>)
        ensures
            result is Ok <==> sha256_digest(contents@) == expected_hash@,
    {
        Sha256Verifier::verify_inner(contents, expected_hash)
    }
}

impl Sha256Verifier {
    /// Accepts `contents` exactly where their SHA-256 digest is
    /// `expected_hash`.
    pub fn verify_inner(contents: &[u8], expected_hash: [u8; 32]) -> (result: Result<
        (),
        VerifyError,
    >)
        ensures
            result is Ok <==> sha256_digest(contents@) == expected_hash@,
            result is Err ==> result == Err::<(), VerifyError>(VerifyError::InvalidChecksum),
    {
        let actual_hash = sha256(contents);
        Sha256Verifier::check_hash(&actual_hash, &expected_hash)
    }

    /// Accepts exactly where the two checksums are the same.
    pub fn check_hash(actual_hash: &[u8; 32], expected_hash: &[u8; 32]) -> (result: Result<
        (),
        VerifyError,
    >)
        ensures
            result == if actual_hash@ == expected_hash@ {
                Ok::<(), VerifyError>(())
            } else {
                Err::<(), VerifyError>(VerifyError::InvalidChecksum)
            },
    {
        if expected_hash.same_key(actual_hash) {
            Ok(())
        } else {
            Err(VerifyError::InvalidChecksum)
        }
    }
}

} // verus!
