use crate::error::PswdError;
use vstd::prelude::*;

verus! {

/// The size in bytes of every padded buffer, whatever the words in it.
pub const BUFFER_LEN: usize = 512;

/// The byte that fills a buffer behind the words: a space.
pub const PADDING: u8 = 0x20;

/// `text` followed by padding up to `BUFFER_LEN` bytes; `text` is no longer than that.
pub open spec fn padded(text: Seq<u8>) -> Seq<u8> {
    Seq::new(
        BUFFER_LEN as nat,
        |i: int|
            if i < text.len() {
                text[i]
            } else {
                PADDING
            },
    )
}

/// The buffer that holds `text`; a text that does not fit is an error.
pub open spec fn buffer_of(text: Seq<u8>) -> Result<Seq<u8>, PswdError> {
    if text.len() > BUFFER_LEN {
        Err(PswdError::WordsTooLong)
    } else {
        Ok(padded(text))
    }
}

/// Padding keeps the text in front and adds nothing but padding bytes behind it.
pub proof fn lemma_padded_keeps_text(text: Seq<u8>)
    requires
        text.len() <= BUFFER_LEN,
    ensures
        padded(text).len() == BUFFER_LEN,
        padded(text).subrange(0, text.len() as int) == text,
        forall|i: int| text.len() <= i < BUFFER_LEN ==> padded(text)[i] == PADDING,
{
    assert(padded(text).subrange(0, text.len() as int) =~= text);
}

/// The joined words of a password, padded to exactly `BUFFER_LEN` bytes.
pub struct PasswordBuffer {
    bytes: Vec<u8>,
}

impl View for PasswordBuffer {
    type V = Seq<u8>;

    closed spec fn view(&self) -> Seq<u8> {
        self.bytes@
    }
}

impl PasswordBuffer {
    #[verifier::type_invariant]
    spec fn well_formed(&self) -> bool {
        self.bytes@.len() == BUFFER_LEN
    }

    /// The bytes of the buffer.
    pub fn as_bytes(&self) -> (bytes: &[u8])
        ensures
            bytes@ == self@,
            bytes@.len() == BUFFER_LEN,
    {
        proof {
            use_type_invariant(self);
        }
        self.bytes.as_slice()
    }
}

/// Pads the joined words with spaces to exactly `BUFFER_LEN` bytes.
///
/// Words that already exceed the buffer are refused: they are never cut.
pub fn pad_to_fixed(joined_words: &[u8]) -> (buffer: Result<PasswordBuffer, PswdError>)
    ensures
        match buffer {
            Ok(b) => buffer_of(joined_words@) == Ok::<Seq<u8>, PswdError>(b@),
            Err(e) => buffer_of(joined_words@) == Err::<Seq<u8>, PswdError>(e),
        },
{
    if joined_words.len() > BUFFER_LEN {
        return Err(PswdError::WordsTooLong);
    }
    let mut bytes: Vec<u8> = Vec::new();
    let mut i: usize = 0;
    while i < BUFFER_LEN
        invariant
            i <= BUFFER_LEN,
            bytes@ =~= padded(joined_words@).subrange(0, i as int),
        decreases BUFFER_LEN - i,
    {
        if i < joined_words.len() {
            bytes.push(joined_words[i]);
        } else {
            bytes.push(PADDING);
        }
        i += 1;
    }
    assert(bytes@ =~= padded(joined_words@));
    Ok(PasswordBuffer { bytes })
}

} // verus!
