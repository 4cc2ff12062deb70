use crate::cipher::{
    aes256_cbc_decrypt, aes256_cbc_decryption, answer_bytes, BLOCK_LEN, KEY_LEN,
    MAX_CIPHER_INPUT,
};
use crate::error::PswdError;
use vstd::prelude::*;
use vstd::string::*;

verus! {

/// The byte that fills a secret phrase up to the length of a key: the letter `b`.
pub const SECRET_FILLER: u8 = 0x62;

/// The bytes that open every stand-in key: the text `Nice try`.
pub const FALLBACK_PREFIX: [u8; 8] = [0x4e, 0x69, 0x63, 0x65, 0x20, 0x74, 0x72, 0x79];

/// The text `Nice try` as a sequence of bytes.
pub open spec fn fallback_prefix() -> Seq<u8> {
    seq![0x4eu8, 0x69u8, 0x63u8, 0x65u8, 0x20u8, 0x74u8, 0x72u8, 0x79u8]
}

/// The key that a secret phrase stands for: its first `KEY_LEN` bytes, or all of them
/// followed by as many fillers as are wanting.
pub open spec fn normalized_secret(phrase: Seq<u8>) -> Seq<u8> {
    Seq::new(
        KEY_LEN as nat,
        |i: int|
            if i < phrase.len() {
                phrase[i]
            } else {
                SECRET_FILLER
            },
    )
}

/// The initialization vector under which the key material was encrypted: all zero.
pub open spec fn zero_iv() -> Seq<u8> {
    Seq::new(BLOCK_LEN as nat, |i: int| 0u8)
}

/// The stand-in key for a secret that failed to decrypt the key material: the prefix,
/// then the normalized secret, then zeros, cut to the length of a key.
pub open spec fn fallback_key(normalized: Seq<u8>) -> Seq<u8> {
    Seq::new(
        KEY_LEN as nat,
        |i: int|
            if i < 8 {
                fallback_prefix()[i]
            } else if i - 8 < normalized.len() {
                normalized[i - 8]
            } else {
                0u8
            },
    )
}

/// The key that follows from an attempt to decrypt the key material.
///
/// A plaintext of at least `KEY_LEN` bytes gives its first `KEY_LEN` bytes. A failed
/// decryption gives the stand-in key and no error. A shorter plaintext shows key
/// material that was never a key, and is an error.
pub open spec fn key_of_plaintext(plaintext: Option<Seq<u8>>, normalized: Seq<u8>) -> Result<
    Seq<u8>,
    PswdError,
> {
    match plaintext {
        Some(plain) => if plain.len() >= KEY_LEN {
            Ok(plain.subrange(0, KEY_LEN as int))
        } else {
            Err(PswdError::KeyMaterialTooShort)
        },
        None => Ok(fallback_key(normalized)),
    }
}

/// The key that a secret phrase recovers from the key material.
pub open spec fn recovered_key(phrase: Seq<u8>, key_material: Seq<u8>) -> Result<
    Seq<u8>,
    PswdError,
> {
    let normalized = normalized_secret(phrase);
    key_of_plaintext(aes256_cbc_decryption(normalized, zero_iv(), key_material), normalized)
}

/// Whatever decryption gave, a key that comes of it holds exactly `KEY_LEN` bytes.
pub proof fn lemma_key_shape(plaintext: Option<Seq<u8>>, normalized: Seq<u8>)
    ensures
        match key_of_plaintext(plaintext, normalized) {
            Ok(key) => key.len() == KEY_LEN,
            Err(e) => e == PswdError::KeyMaterialTooShort,
        },
{
}

/// A secret phrase is read byte for byte up to the length of a key: phrases that differ
/// at a position within it, where both have a byte, normalize to different keys.
pub proof fn lemma_normalized_secret_tells_phrases_apart(
    phrase_a: Seq<u8>,
    phrase_b: Seq<u8>,
    position: int,
)
    requires
        0 <= position < KEY_LEN,
        position < phrase_a.len(),
        position < phrase_b.len(),
        phrase_a[position] != phrase_b[position],
    ensures
        normalized_secret(phrase_a) != normalized_secret(phrase_b),
{
    assert(normalized_secret(phrase_a)[position] == phrase_a[position]);
    assert(normalized_secret(phrase_b)[position] == phrase_b[position]);
}

/// Two secret phrases whose normalized forms differ at a position that the stand-in key
/// has room for get different stand-in keys: wrong guesses do not all look alike.
pub proof fn lemma_fallback_tells_secrets_apart(
    phrase_a: Seq<u8>,
    phrase_b: Seq<u8>,
    position: int,
)
    requires
        0 <= position < KEY_LEN - 8,
        normalized_secret(phrase_a)[position] != normalized_secret(phrase_b)[position],
    ensures
        fallback_key(normalized_secret(phrase_a)) != fallback_key(normalized_secret(phrase_b)),
{
    let key_a = fallback_key(normalized_secret(phrase_a));
    let key_b = fallback_key(normalized_secret(phrase_b));
    assert(key_a[position + 8] == normalized_secret(phrase_a)[position]);
    assert(key_b[position + 8] == normalized_secret(phrase_b)[position]);
}

/// A key of exactly `KEY_LEN` bytes: the true one, or a stand-in of the same shape.
pub struct RecoveredKey {
    bytes: Vec<u8>,
}

impl View for RecoveredKey {
    type V = Seq<u8>;

    closed spec fn view(&self) -> Seq<u8> {
        self.bytes@
    }
}

impl RecoveredKey {
    #[verifier::type_invariant]
    spec fn well_formed(&self) -> bool {
        self.bytes@.len() == KEY_LEN
    }

    /// Takes the first `KEY_LEN` bytes of `bytes` as a key, if there are that many.
    pub fn from_bytes(bytes: &[u8]) -> (key: Option<RecoveredKey>)
        ensures
            match key {
                Some(k) => bytes@.len() >= KEY_LEN && k@ == bytes@.subrange(0, KEY_LEN as int),
                None => bytes@.len() < KEY_LEN,
            },
    {
        if bytes.len() < KEY_LEN {
            return None;
        }
        let mut head: Vec<u8> = Vec::new();
        let mut i: usize = 0;
        while i < KEY_LEN
            invariant
                i <= KEY_LEN <= bytes@.len(),
                head@ =~= bytes@.subrange(0, i as int),
            decreases KEY_LEN - i,
        {
            head.push(bytes[i]);
            i += 1;
        }
        Some(RecoveredKey { bytes: head })
    }

    /// The bytes of the key.
    pub fn as_bytes(&self) -> (bytes: &[u8])
        ensures
            bytes@ == self@,
            bytes@.len() == KEY_LEN,
    {
        proof {
            use_type_invariant(self);
        }
        self.bytes.as_slice()
    }
}

/// Cuts or fills a secret phrase to the length of a key.
pub fn normalize_secret(phrase: &str) -> (key: Vec<u8>)
    ensures
        key@ == normalized_secret(phrase.spec_bytes()),
{
    let raw = phrase.as_bytes();
    let mut key: Vec<u8> = Vec::new();
    let mut i: usize = 0;
    while i < KEY_LEN
        invariant
            i <= KEY_LEN,
            raw@ == phrase.spec_bytes(),
            key@ =~= normalized_secret(raw@).subrange(0, i as int),
        decreases KEY_LEN - i,
    {
        if i < raw.len() {
            key.push(raw[i]);
        } else {
            key.push(SECRET_FILLER);
        }
        i += 1;
    }
    assert(key@ =~= normalized_secret(raw@));
    key
}

/// Builds the stand-in key for a normalized secret.
pub fn synthesize_fallback(normalized: &[u8]) -> (key: RecoveredKey)
    ensures
        key@ == fallback_key(normalized@),
{
    let mut bytes: Vec<u8> = Vec::new();
    let mut i: usize = 0;
    while i < KEY_LEN
        invariant
            i <= KEY_LEN,
            bytes@ =~= fallback_key(normalized@).subrange(0, i as int),
        decreases KEY_LEN - i,
    {
        if i < 8 {
            bytes.push(FALLBACK_PREFIX[i]);
        } else if i - 8 < normalized.len() {
            bytes.push(normalized[i - 8]);
        } else {
            bytes.push(0u8);
        }
        i += 1;
    }
    assert(bytes@ =~= fallback_key(normalized@));
    RecoveredKey { bytes }
}

/// Decides the key once the cipher has answered: `plaintext` is what decryption of the
/// key material gave, `None` where it failed.
pub fn key_from_plaintext(plaintext: Option<Vec<u8>>, normalized: &[u8]) -> (key: Result<
    RecoveredKey,
    PswdError,
>)
    ensures
        match key {
            Ok(k) => key_of_plaintext(answer_bytes(plaintext), normalized@) == Ok::<
                Seq<u8>,
                PswdError,
            >(k@),
            Err(e) => key_of_plaintext(answer_bytes(plaintext), normalized@) == Err::<
                Seq<u8>,
                PswdError,
            >(e),
        },
{
    match plaintext {
        Some(plain) => match RecoveredKey::from_bytes(plain.as_slice()) {
            Some(key) => Ok(key),
            None => Err(PswdError::KeyMaterialTooShort),
        },
        None => Ok(synthesize_fallback(normalized)),
    }
}

/// Recovers the key from the key material with a secret phrase.
///
/// A phrase that does not decrypt the key material yields a stand-in key, never an
/// error: nothing after this call tells the two apart.
pub fn recover(phrase: &str, key_material: &[u8]) -> (key: Result<RecoveredKey, PswdError>)
    requires
        key_material@.len() <= MAX_CIPHER_INPUT,
    ensures
        match key {
            Ok(k) => recovered_key(phrase.spec_bytes(), key_material@) == Ok::<
                Seq<u8>,
                PswdError,
            >(k@),
            Err(e) => recovered_key(phrase.spec_bytes(), key_material@) == Err::<
                Seq<u8>,
                PswdError,
            >(e),
        },
{
    let normalized = normalize_secret(phrase);
    let mut iv: Vec<u8> = Vec::new();
    let mut i: usize = 0;
    while i < BLOCK_LEN
        invariant
            i <= BLOCK_LEN,
            iv@ =~= zero_iv().subrange(0, i as int),
        decreases BLOCK_LEN - i,
    {
        iv.push(0u8);
        i += 1;
    }
    assert(iv@ =~= zero_iv());
    let plaintext = match aes256_cbc_decrypt(
        normalized.as_slice(),
        iv.as_slice(),
        key_material,
    ) {
        Ok(plain) => Some(plain),
        Err(_) => None,
    };
    key_from_plaintext(plaintext, normalized.as_slice())
}

} // verus!
