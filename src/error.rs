use vstd::prelude::*;

verus! {

/// The ways in which padding, key generation, encryption or decryption can fail.
#[derive(Debug, Clone, Copy, PartialEq, Eq, Structural)]
pub enum CipherError {
    /// The random source or the key schedule could not produce key material.
    KeyGeneration,
    /// A block size, key, key direction or IV length that the scheme cannot use.
    InvalidConfiguration,
    /// Decrypted bytes that carry no valid padding or are not valid UTF-8.
    Decoding,
}

} // verus!
