use crate::cipher::{answer_bytes, encrypt_unpadded, unpadded_encryption, BLOCK_LEN};
use crate::error::PswdError;
use crate::generator::{chacha8_draw_word, Generator};
use crate::hex::{
    ascii_text, big_endian, big_endian_bytes, hex_digits, hex_encode, hex_string, is_hex_text,
    lemma_hex_digits_len, lemma_hex_text,
};
use crate::key::RecoveredKey;
use crate::padding::PasswordBuffer;
use vstd::prelude::*;
use vstd::string::*;

verus! {

/// The size in bytes of the ciphertext of a padded buffer: that of the buffer, which
/// fills whole cipher blocks and is encrypted without padding.
pub const CIPHERTEXT_LEN: usize = 512;

/// The length in characters of every artifact: two for each byte of ciphertext, then
/// the sixteen of the initialization vector.
pub const ARTIFACT_LEN: usize = 1040;

/// The initialization vector that a drawn word stands for: its sixteen lowercase
/// hexadecimal digits, the most significant first, as ASCII codes.
pub open spec fn iv_of(word: u64) -> Seq<u8> {
    hex_digits(big_endian(word))
}

/// The artifact made of a ciphertext and the word behind the initialization vector:
/// the ciphertext in hexadecimal, then the vector as it is. A missing ciphertext, or
/// one of another size than `CIPHERTEXT_LEN`, is a cipher failure.
pub open spec fn artifact_of_ciphertext(ciphertext: Option<Seq<u8>>, iv_word: u64) -> Result<
    Seq<char>,
    PswdError,
> {
    match ciphertext {
        Some(bytes) => if bytes.len() == CIPHERTEXT_LEN {
            Ok(ascii_text(hex_digits(bytes)) + ascii_text(iv_of(iv_word)))
        } else {
            Err(PswdError::CipherFailure)
        },
        None => Err(PswdError::CipherFailure),
    }
}

/// The artifact of a buffer under a key, with the vector that `iv_word` stands for.
pub open spec fn artifact_of(key: Seq<u8>, buffer: Seq<u8>, iv_word: u64) -> Result<
    Seq<char>,
    PswdError,
> {
    artifact_of_ciphertext(unpadded_encryption(key, iv_of(iv_word), buffer), iv_word)
}

/// An initialization vector fills exactly one cipher block.
pub proof fn lemma_iv_len(word: u64)
    ensures
        iv_of(word).len() == BLOCK_LEN,
{
    lemma_hex_digits_len(big_endian(word));
}

/// The shape of every artifact: `ARTIFACT_LEN` lowercase hexadecimal digits.
pub open spec fn well_shaped(text: Seq<char>) -> bool {
    text.len() == ARTIFACT_LEN && is_hex_text(text)
}

/// Every artifact has the same shape, whatever went into it, and the one error of this
/// stage is that of the cipher.
pub proof fn lemma_artifact_shape(ciphertext: Option<Seq<u8>>, iv_word: u64)
    ensures
        match artifact_of_ciphertext(ciphertext, iv_word) {
            Ok(text) => well_shaped(text),
            Err(e) => e == PswdError::CipherFailure,
        },
{
    lemma_iv_len(iv_word);
    if let Some(bytes) = ciphertext {
        if bytes.len() == CIPHERTEXT_LEN {
            lemma_hex_text(bytes);
            lemma_hex_text(big_endian(iv_word));
        }
    }
}

/// Writes the artifact once the cipher has answered: `ciphertext` is what encryption of
/// the buffer gave, `None` where it failed.
pub fn artifact_from_ciphertext(ciphertext: Option<Vec<u8>>, iv_word: u64) -> (artifact: Result<
    String,
    PswdError,
>)
    ensures
        match artifact {
            Ok(text) => artifact_of_ciphertext(answer_bytes(ciphertext), iv_word) == Ok::<
                Seq<char>,
                PswdError,
            >(text@) && well_shaped(text@),
            Err(e) => artifact_of_ciphertext(answer_bytes(ciphertext), iv_word) == Err::<
                Seq<char>,
                PswdError,
            >(e),
        },
{
    proof {
        lemma_artifact_shape(answer_bytes(ciphertext), iv_word);
    }
    match ciphertext {
        Some(bytes) => {
            if bytes.len() != CIPHERTEXT_LEN {
                return Err(PswdError::CipherFailure);
            }
            let mut text = hex_string(bytes.as_slice());
            let iv_bytes = big_endian_bytes(iv_word);
            let iv_text = hex_string(iv_bytes.as_slice());
            text.append(iv_text.as_str());
            Ok(text)
        },
        None => Err(PswdError::CipherFailure),
    }
}

/// Draws the initialization vector from the generator that drew the words, encrypts
/// the buffer under the key and writes the artifact.
pub fn encrypt_artifact(
    key: &RecoveredKey,
    buffer: &PasswordBuffer,
    generator: &mut Generator,
) -> (artifact: Result<String, PswdError>)
    ensures
        final(generator).state() == chacha8_draw_word(old(generator).state()).1,
        match artifact {
            Ok(text) => artifact_of(
                key@,
                buffer@,
                chacha8_draw_word(old(generator).state()).0,
            ) == Ok::<Seq<char>, PswdError>(text@) && well_shaped(text@),
            Err(e) => artifact_of(key@, buffer@, chacha8_draw_word(old(generator).state()).0)
                == Err::<Seq<char>, PswdError>(e),
        },
{
    let iv_word = generator.next_word();
    let word_bytes = big_endian_bytes(iv_word);
    let iv = hex_encode(word_bytes.as_slice());
    proof {
        lemma_iv_len(iv_word);
    }
    let ciphertext = encrypt_unpadded(key.as_bytes(), iv.as_slice(), buffer.as_bytes());
    artifact_from_ciphertext(ciphertext, iv_word)
}

} // verus!
