use vstd::prelude::*;

verus! {

/// Every way an encryption or decryption operation can fail.
///
/// The authentication variants (`InvalidSignatureFormat`, `InvalidRecoveryId`,
/// `PublicKeyRecoveryFailed`, `SignatureMismatch`) are produced before any file
/// is touched. `CleanupFailed` reports that a deletion performed while
/// recovering from an earlier failure itself failed; it deliberately shadows
/// the earlier cause.
#[derive(Clone, Copy, Debug, PartialEq, Eq, Structural)]
pub enum WabaError {
    /// The input path has no usable file name to derive artifact names from.
    InvalidPathOrName,
    /// The signature string is not hex, or does not decode to 65 bytes.
    InvalidSignatureFormat,
    /// The recovery byte is outside the Ethereum convention's domain.
    InvalidRecoveryId,
    /// The curve library rejected the signature during public-key recovery.
    PublicKeyRecoveryFailed,
    /// The recovered wallet address differs from the claimed one.
    SignatureMismatch,
    /// Bundling or unbundling the archive failed.
    ArchiveError,
    /// Opening, reading, writing or deleting a file failed.
    IoError,
    /// Encryption could not proceed, e.g. an input too large for the 4-byte
    /// chunk counter.
    EncryptionFailed,
    /// An authentication tag did not verify on some ciphertext chunk.
    DecryptionFailed,
    /// A deletion during error-path cleanup failed.
    CleanupFailed,
}

} // verus!
