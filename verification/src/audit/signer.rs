//! The development signer's key file: exactly 32 bytes of Ed25519 seed.
//! Reading and writing the file, and generating a fresh seed when there is
//! none, are the caller's side.

use vstd::prelude::*;
use crate::audit::chain::SoftwareSigner;

verus! {

/// Why a key file gave no signer.
#[derive(Debug, Clone, PartialEq, Eq)]
pub enum FileKeyError {
    /// Reading or writing the key file failed, with the I/O error's message.
    Io(String),
    /// The key file does not hold exactly 32 bytes.
    BadLength,
}

/// The signer whose seed is the content of a key file, which must be exactly
/// 32 bytes long.
pub fn signer_from_key_file(bytes: &[u8]) -> (r: Result<SoftwareSigner, FileKeyError>)
    ensures
        match r {
            Ok(s) => bytes@.len() == 32 && s.spec_seed() == bytes@,
            Err(e) => bytes@.len() != 32 && e == FileKeyError::BadLength,
        },
{
    if bytes.len() != 32 {
        return Err(FileKeyError::BadLength);
    }
    let mut seed = [0u8; 32];
    let mut i: usize = 0;
    while i < 32
        invariant
            i <= 32,
            bytes@.len() == 32,
            forall|j: int| 0 <= j < i ==> seed@[j] == bytes@[j],
        decreases 32 - i,
    {
        seed[i] = bytes[i];
        i = i + 1;
    }
    assert(seed@ =~= bytes@);
    Ok(SoftwareSigner::from_seed(seed))
}

} // verus!
