//! The ways a genesis run can fail.

use vstd::prelude::*;

verus! {

/// Why a genesis run failed.
#[derive(Debug, Clone, PartialEq, Eq)]
pub enum Error {
    /// Record `line` (0-based) of the public-key file is not 128 hexadecimal
    /// digits followed by a newline or by the end of the file.
    Parse { line: usize },
    /// Record `line` (0-based) of the public-key file decodes to 64 bytes that
    /// are not a secp256k1 public key.
    Decode { line: usize },
    /// Validators `first` and `second` have the same public key.
    DuplicateKey { first: usize, second: usize },
    /// The secret derived for validator `index` is not a valid secp256k1 key.
    KeyDerivation { index: usize },
    /// The validator counts are out of range: at least one genesis validator
    /// is needed, and no more genesis validators than validators.
    InvalidParameter { num_validator: usize, num_genesis_validator: usize },
    /// Validator `index` of an artifact has a public key that the artifact's
    /// layout cannot hold.
    Format { index: usize },
    /// Reading or writing a file failed; raised by the I/O layer around the
    /// library.
    Io { message: String },
}

} // verus!
