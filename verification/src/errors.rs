//! The error type shared by every fallible operation of the crate.

use vstd::prelude::*;

verus! {

/// Why an encryption or decryption operation was refused.
///
/// Every error is terminal for the module being processed: nothing is retried.
#[derive(Debug, Clone, Copy, PartialEq, Eq, Structural)]
pub enum ParquetError {
    /// A key whose length the cipher does not support, or a request that the
    /// cipher itself refused.
    CryptoSetup,
    /// The operating system's random number generator failed.
    Randomness,
    /// The nonce counter of an encryptor has come back to its start: the key
    /// must not seal anything more.
    NonceExhausted,
    /// A frame is too short, was tampered with, or was sealed under another
    /// key or other additional authenticated data.
    AuthenticationFailed,
    /// A row group, column or page ordinal is negative or does not fit in 16
    /// bits.
    AadOrdinal,
    /// An encryptor was requested for a column that has no key.
    UnencryptedColumn,
    /// A page header of a kind that is never encrypted.
    UnsupportedPageType,
    /// An object could not be turned into bytes.
    Serialization,
}

impl ParquetError {
    /// What the error means, in words.
    pub open spec fn spec_message(self) -> Seq<char> {
        match self {
            ParquetError::CryptoSetup => "unsupported key length, or the cipher refused"@,
            ParquetError::Randomness => "the system's random number generator failed"@,
            ParquetError::NonceExhausted => "nonce sequence exhausted"@,
            ParquetError::AuthenticationFailed => "authentication failed"@,
            ParquetError::AadOrdinal => "ordinal is negative or does not fit in 16 bits"@,
            ParquetError::UnencryptedColumn => "column is not encrypted"@,
            ParquetError::UnsupportedPageType =>
                "unsupported page type for page header encryption"@,
            ParquetError::Serialization => "object could not be serialized"@,
        }
    }

    /// What the error means, in words.
    pub fn message(&self) -> (text: &'static str)
        ensures
            text@ == self.spec_message(),
    {
        match self {
            ParquetError::CryptoSetup => "unsupported key length, or the cipher refused",
            ParquetError::Randomness => "the system's random number generator failed",
            ParquetError::NonceExhausted => "nonce sequence exhausted",
            ParquetError::AuthenticationFailed => "authentication failed",
            ParquetError::AadOrdinal => "ordinal is negative or does not fit in 16 bits",
            ParquetError::UnencryptedColumn => "column is not encrypted",
            ParquetError::UnsupportedPageType => "unsupported page type for page header encryption",
            ParquetError::Serialization => "object could not be serialized",
        }
    }
}

/// The bytes of a successful result, for use in contracts.
pub open spec fn bytes_of(r: Result<Vec<u8>, ParquetError>) -> Result<Seq<u8>, ParquetError> {
    match r {
        Ok(v) => Ok(v@),
        Err(e) => Err(e),
    }
}

/// Whether two byte strings are equal.
pub fn bytes_equal(left: &[u8], right: &[u8]) -> (equal: bool)
    ensures
        equal == (left@ == right@),
{
    if left.len() != right.len() {
        return false;
    }
    let mut i: usize = 0;
    while i < left.len()
        invariant
            i <= left@.len(),
            left@.len() == right@.len(),
            forall|j: int| 0 <= j < i ==> left@[j] == right@[j],
        decreases left@.len() - i,
    {
        if left[i] != right[i] {
            return false;
        }
        i = i + 1;
    }
    assert(left@ =~= right@);
    true
}

} // verus!
