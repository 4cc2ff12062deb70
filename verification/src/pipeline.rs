use crate::artifact::{
    artifact_of, encrypt_artifact, iv_of, lemma_artifact_shape, well_shaped,
};
use crate::cipher::{aes256_cbc_decryption, unpadded_encryption, KEY_LEN, MAX_CIPHER_INPUT};
use crate::error::PswdError;
use crate::generator::{chacha8_draw_word, chacha8_seeded, drawn_indices, draws_within, state_after};
use crate::key::{fallback_key, normalized_secret, recover, recovered_key, zero_iv};
use crate::padding::{buffer_of, pad_to_fixed, padded, BUFFER_LEN};
use crate::seed::{derive_seed, seed_of};
use crate::words::{
    joined_words, lemma_joined_len_bound, list_bytes, select_words, selection_of, words_fit,
};
use vstd::prelude::*;
use vstd::string::*;

verus! {

/// The artifact that a key makes of a hint and a strength over a word list: the seed,
/// the selection, the padded buffer and the encryption, each from the one before.
pub open spec fn artifact_under_key(
    key: Seq<u8>,
    hint: Seq<u8>,
    strength: u32,
    word_list: Seq<String>,
) -> Result<Seq<char>, PswdError> {
    match selection_of(seed_of(key, hint, strength), word_list, strength) {
        Err(e) => Err(e),
        Ok((joined, rng)) => match buffer_of(joined) {
            Err(e) => Err(e),
            Ok(buffer) => artifact_of(key, buffer, chacha8_draw_word(rng).0),
        },
    }
}

/// The artifact of a request: the key is recovered first, and all else hangs on it.
pub open spec fn generated(
    hint: Seq<u8>,
    phrase: Seq<u8>,
    strength: u32,
    key_material: Seq<u8>,
    word_list: Seq<String>,
) -> Result<Seq<char>, PswdError> {
    match recovered_key(phrase, key_material) {
        Err(e) => Err(e),
        Ok(key) => artifact_under_key(key, hint, strength, word_list),
    }
}

/// Requests that agree in hint, secret phrase, strength, key material and in the text
/// of every word have the same artifact, or fail alike.
pub proof fn lemma_deterministic(
    hint: Seq<u8>,
    phrase: Seq<u8>,
    strength: u32,
    key_material: Seq<u8>,
    word_list_a: Seq<String>,
    word_list_b: Seq<String>,
)
    requires
        word_list_a.len() == word_list_b.len(),
        forall|i: int| 0 <= i < word_list_a.len() ==> word_list_a[i]@ == word_list_b[i]@,
    ensures
        generated(hint, phrase, strength, key_material, word_list_a) == generated(
            hint,
            phrase,
            strength,
            key_material,
            word_list_b,
        ),
{
    assert(list_bytes(word_list_a) =~= list_bytes(word_list_b));
}

/// Whether the draws made for a request stay within its word list: where the key is
/// recovered and the list is not empty, every index drawn lies below the length of the
/// list, so every word of the password is a word of the list.
pub open spec fn draws_stay_in_list(
    hint: Seq<u8>,
    phrase: Seq<u8>,
    strength: u32,
    key_material: Seq<u8>,
    word_list: Seq<String>,
) -> bool {
    match recovered_key(phrase, key_material) {
        Ok(key) => word_list.len() > 0 ==> draws_within(
            chacha8_seeded(seed_of(key, hint, strength)),
            word_list.len() as usize,
            strength as nat,
        ),
        Err(_) => true,
    }
}

/// Under any key, an artifact has the one shape, and a request fails only on an empty
/// word list, on words that overflow the buffer, or on the cipher.
pub proof fn lemma_artifact_under_key_shape(
    key: Seq<u8>,
    hint: Seq<u8>,
    strength: u32,
    word_list: Seq<String>,
)
    ensures
        match artifact_under_key(key, hint, strength, word_list) {
            Ok(text) => well_shaped(text),
            Err(e) => e == PswdError::EmptyWordList || e == PswdError::WordsTooLong || e
                == PswdError::CipherFailure,
        },
{
    if let Ok((joined, rng)) = selection_of(seed_of(key, hint, strength), word_list, strength) {
        if let Ok(buffer) = buffer_of(joined) {
            let iv_word = chacha8_draw_word(rng).0;
            lemma_artifact_shape(unpadded_encryption(key, iv_of(iv_word), buffer), iv_word);
        }
    }
}

/// Whatever the strength and the word list, an artifact has the one shape:
/// `ARTIFACT_LEN` lowercase hexadecimal digits.
pub proof fn lemma_constant_shape(
    hint: Seq<u8>,
    phrase: Seq<u8>,
    strength: u32,
    key_material: Seq<u8>,
    word_list: Seq<String>,
)
    ensures
        match generated(hint, phrase, strength, key_material, word_list) {
            Ok(text) => well_shaped(text),
            Err(_) => true,
        },
{
    if let Ok(key) = recovered_key(phrase, key_material) {
        lemma_artifact_under_key_shape(key, hint, strength, word_list);
    }
}

/// Over a list that holds a word, whose words with a separator each fit the buffer
/// `strength` times, and with draws that stay within the list, a request under any key
/// is turned down by nothing but the cipher: it encrypts the padded words, and yields
/// an artifact wherever the cipher yields a ciphertext of the size of the buffer.
pub proof fn lemma_only_the_cipher_fails(
    key: Seq<u8>,
    hint: Seq<u8>,
    strength: u32,
    word_list: Seq<String>,
    longest: nat,
)
    requires
        0 < word_list.len() <= usize::MAX,
        words_fit(word_list, longest),
        strength * (longest + 1) <= BUFFER_LEN,
        draws_within(
            chacha8_seeded(seed_of(key, hint, strength)),
            word_list.len() as usize,
            strength as nat,
        ),
    ensures
        ({
            let start = chacha8_seeded(seed_of(key, hint, strength));
            let bound = word_list.len() as usize;
            let joined = joined_words(
                list_bytes(word_list),
                drawn_indices(start, bound, strength as nat),
            );
            &&& joined.len() <= BUFFER_LEN
            &&& artifact_under_key(key, hint, strength, word_list) == artifact_of(
                key,
                padded(joined),
                chacha8_draw_word(state_after(start, bound, strength as nat)).0,
            )
        }),
        match artifact_under_key(key, hint, strength, word_list) {
            Ok(text) => well_shaped(text),
            Err(e) => e == PswdError::CipherFailure,
        },
{
    let start = chacha8_seeded(seed_of(key, hint, strength));
    let bound = word_list.len() as usize;
    let indices = drawn_indices(start, bound, strength as nat);
    let list = list_bytes(word_list);
    assert forall|k: int| 0 <= k < indices.len() implies indices[k] < list.len() by {
        assert(indices[k] < bound);
    }
    assert forall|i: int| 0 <= i < list.len() implies (#[trigger] list[i]).len() <= longest by {
        assert(list[i] == vstd::utf8::encode_utf8(word_list[i]@));
    }
    lemma_joined_len_bound(list, indices, longest);
    lemma_artifact_under_key_shape(key, hint, strength, word_list);
}

/// A request over a list that holds a word, whose words with a separator each fit the
/// buffer `strength` times, and whose draws stay within the list, is turned down by
/// nothing but key material too short for a key, or the cipher.
pub proof fn lemma_request_fails_only_on_key_or_cipher(
    hint: Seq<u8>,
    phrase: Seq<u8>,
    strength: u32,
    key_material: Seq<u8>,
    word_list: Seq<String>,
    longest: nat,
)
    requires
        0 < word_list.len() <= usize::MAX,
        words_fit(word_list, longest),
        strength * (longest + 1) <= BUFFER_LEN,
        draws_stay_in_list(hint, phrase, strength, key_material, word_list),
    ensures
        match generated(hint, phrase, strength, key_material, word_list) {
            Ok(text) => well_shaped(text),
            Err(e) => e == PswdError::KeyMaterialTooShort || e == PswdError::CipherFailure,
        },
{
    match recovered_key(phrase, key_material) {
        Ok(key) => {
            lemma_only_the_cipher_fails(key, hint, strength, word_list, longest);
        },
        Err(e) => {
            crate::key::lemma_key_shape(
                aes256_cbc_decryption(normalized_secret(phrase), zero_iv(), key_material),
                normalized_secret(phrase),
            );
        },
    }
}

/// A wrong secret phrase raises no error of its own. Whether it fails to decrypt the
/// key material, or decrypts it to some other bytes that fill a key, the request is
/// served under a key of the usual size: it yields an artifact of the one shape wherever
/// it yields one, and fails only as a request under the right key can fail.
pub proof fn lemma_wrong_secret_is_served(
    hint: Seq<u8>,
    phrase: Seq<u8>,
    strength: u32,
    key_material: Seq<u8>,
    word_list: Seq<String>,
)
    requires
        match aes256_cbc_decryption(normalized_secret(phrase), zero_iv(), key_material) {
            Some(plain) => plain.len() >= KEY_LEN,
            None => true,
        },
    ensures
        match recovered_key(phrase, key_material) {
            Ok(key) => key.len() == KEY_LEN && generated(
                hint,
                phrase,
                strength,
                key_material,
                word_list,
            ) == artifact_under_key(key, hint, strength, word_list),
            Err(_) => false,
        },
        aes256_cbc_decryption(normalized_secret(phrase), zero_iv(), key_material).is_none()
            ==> recovered_key(phrase, key_material) == Ok::<Seq<u8>, PswdError>(
            fallback_key(normalized_secret(phrase)),
        ),
        match generated(hint, phrase, strength, key_material, word_list) {
            Ok(text) => well_shaped(text),
            Err(e) => e == PswdError::EmptyWordList || e == PswdError::WordsTooLong || e
                == PswdError::CipherFailure,
        },
{
    if let Ok(key) = recovered_key(phrase, key_material) {
        lemma_artifact_under_key_shape(key, hint, strength, word_list);
    }
}

/// Derives the password for a hint and encrypts it: recovers the key, derives the seed,
/// selects the words, pads them and writes the artifact.
pub fn generate(
    hint: &str,
    secret_phrase: &str,
    strength: u32,
    key_material: &[u8],
    word_list: &Vec<String>,
) -> (artifact: Result<String, PswdError>)
    requires
        key_material@.len() <= MAX_CIPHER_INPUT,
    ensures
        match artifact {
            Ok(text) => generated(
                hint.spec_bytes(),
                secret_phrase.spec_bytes(),
                strength,
                key_material@,
                word_list@,
            ) == Ok::<Seq<char>, PswdError>(text@) && well_shaped(text@),
            Err(e) => generated(
                hint.spec_bytes(),
                secret_phrase.spec_bytes(),
                strength,
                key_material@,
                word_list@,
            ) == Err::<Seq<char>, PswdError>(e),
        },
        draws_stay_in_list(
            hint.spec_bytes(),
            secret_phrase.spec_bytes(),
            strength,
            key_material@,
            word_list@,
        ),
{
    let key = match recover(secret_phrase, key_material) {
        Ok(key) => key,
        Err(e) => { return Err(e); },
    };
    let seed = derive_seed(&key, hint, strength);
    let (joined, mut generator) = match select_words(seed, word_list, strength) {
        Ok(selection) => selection,
        Err(e) => { return Err(e); },
    };
    let buffer = match pad_to_fixed(joined.as_slice()) {
        Ok(buffer) => buffer,
        Err(e) => { return Err(e); },
    };
    encrypt_artifact(&key, &buffer, &mut generator)
}

} // verus!
