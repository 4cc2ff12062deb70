use vstd::prelude::*;

verus! {

/// Why a request for a password artifact was turned down.
///
/// A wrong secret phrase is deliberately absent: it never shows as an error.
#[derive(Clone, Copy, Debug, PartialEq, Eq, Structural)]
pub enum PswdError {
    /// The request carries no textual hint in its first option.
    MissingHint,
    /// The request carries no textual secret phrase in its second option.
    MissingSecret,
    /// The requested strength lies outside `MIN_STRENGTH..=MAX_STRENGTH`.
    StrengthOutOfRange,
    /// The word list holds no word to draw from.
    EmptyWordList,
    /// The drawn words, each followed by a space, do not fit the buffer.
    WordsTooLong,
    /// The key material decrypted to fewer bytes than a key needs.
    KeyMaterialTooShort,
    /// The cipher refused to encrypt, or returned a ciphertext of the wrong size.
    CipherFailure,
}

} // verus!
