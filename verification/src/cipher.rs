use vstd::prelude::*;

verus! {

/// Length in bytes of an AES-256 key.
pub const KEY_LEN: usize = 32;

/// Length in bytes of an AES block, and so of a CBC initialization vector.
pub const BLOCK_LEN: usize = 16;

/// Longest input the cipher takes in one call: its length has to fit a C `int`.
pub const MAX_CIPHER_INPUT: usize = 0x7fff_ffff;

/// The error of the cipher binding, carried through unread.
#[verifier::external_type_specification]
#[verifier::external_body]
pub struct ExErrorStack(openssl::error::ErrorStack);

/// What AES-256-CBC decryption with PKCS#7 unpadding makes of `data` under `key` and `iv`:
/// the plaintext, or `None` where the cipher rejects the input.
pub uninterp spec fn aes256_cbc_decryption(key: Seq<u8>, iv: Seq<u8>, data: Seq<u8>) -> Option<Seq<u8>>;

/// A running encryption of the cipher binding, known only by its session.
#[verifier::external_type_specification]
#[verifier::external_body]
pub struct ExCrypter(openssl::symm::Crypter);

/// What a running encryption is made of: its key, its initialization vector, whether it
/// pads the last block, and the bytes it has taken in so far.
pub uninterp spec fn encryption_session(crypter: openssl::symm::Crypter) -> (
    Seq<u8>,
    Seq<u8>,
    bool,
    Seq<u8>,
);

/// Whether the cipher sets up an AES-256-CBC encryption under `key` and `iv`.
pub uninterp spec fn aes256_cbc_starts(key: Seq<u8>, iv: Seq<u8>) -> bool;

/// The bytes that an AES-256-CBC encryption hands out when it takes in `input`, having
/// taken in `taken` before; `None` where the cipher reports a failure.
pub uninterp spec fn aes256_cbc_update(
    key: Seq<u8>,
    iv: Seq<u8>,
    padding: bool,
    taken: Seq<u8>,
    input: Seq<u8>,
) -> Option<Seq<u8>>;

/// The bytes that an AES-256-CBC encryption hands out when it is closed, having taken in
/// `taken`; `None` where the cipher reports a failure.
pub uninterp spec fn aes256_cbc_final(
    key: Seq<u8>,
    iv: Seq<u8>,
    padding: bool,
    taken: Seq<u8>,
) -> Option<Seq<u8>>;

/// What AES-256-CBC encryption without padding makes of `data` under `key` and `iv`: the
/// bytes handed out on taking in the data, then those handed out on closing; `None`
/// where any step fails.
pub open spec fn unpadded_encryption(key: Seq<u8>, iv: Seq<u8>, data: Seq<u8>) -> Option<
    Seq<u8>,
> {
    if !aes256_cbc_starts(key, iv) {
        None
    } else {
        match aes256_cbc_update(key, iv, false, Seq::empty(), data) {
            None => None,
            Some(head) => match aes256_cbc_final(key, iv, false, data) {
                None => None,
                Some(tail) => Some(head + tail),
            },
        }
    }
}

/// What an answer of the cipher holds, as a sequence of bytes.
pub open spec fn answer_bytes(answer: Option<Vec<u8>>) -> Option<Seq<u8>> {
    match answer {
        Some(bytes) => Some(bytes@),
        None => None,
    }
}

/// Calls `openssl::symm::decrypt` with `Cipher::aes_256_cbc()`.
///
/// Trusted: the outcome is a function of the three byte strings alone, and it is the one
/// that `aes256_cbc_decryption` names. Nothing is claimed about when decryption succeeds
/// nor about the plaintext. The preconditions keep clear of the length assertions that
/// the binding makes on key, IV and input.
#[verifier::external_body]
pub(crate) fn aes256_cbc_decrypt(key: &[u8], iv: &[u8], data: &[u8]) -> (outcome: Result<
    Vec<u8>,
    openssl::error::ErrorStack,
>)
    requires
        key@.len() == KEY_LEN,
        iv@.len() == BLOCK_LEN,
        data@.len() <= MAX_CIPHER_INPUT,
    ensures
        match outcome {
            Ok(plain) => aes256_cbc_decryption(key@, iv@, data@) == Some(plain@),
            Err(_) => aes256_cbc_decryption(key@, iv@, data@).is_none(),
        },
{
    openssl::symm::decrypt(openssl::symm::Cipher::aes_256_cbc(), key, Some(iv), data)
}

/// Calls `openssl::symm::Crypter::new` with `Cipher::aes_256_cbc()` and `Mode::Encrypt`.
///
/// Trusted: whether the encryption is set up depends on key and IV alone; one that is
/// set up holds them, pads, as the binding documents of a new one, and has taken in
/// nothing. The preconditions keep clear of the length assertions that the binding
/// makes on key and IV.
#[verifier::external_body]
pub(crate) fn encryption_start(key: &[u8], iv: &[u8]) -> (outcome: Result<
    openssl::symm::Crypter,
    openssl::error::ErrorStack,
>)
    requires
        key@.len() == KEY_LEN,
        iv@.len() == BLOCK_LEN,
    ensures
        match outcome {
            Ok(crypter) => aes256_cbc_starts(key@, iv@) && encryption_session(crypter) == (
                key@,
                iv@,
                true,
                Seq::<u8>::empty(),
            ),
            Err(_) => !aes256_cbc_starts(key@, iv@),
        },
{
    openssl::symm::Crypter::new(
        openssl::symm::Cipher::aes_256_cbc(),
        openssl::symm::Mode::Encrypt,
        key,
        Some(iv),
    )
}

/// Calls `openssl::symm::Crypter::pad`.
///
/// Trusted: the encryption pads from now on as asked, and is otherwise as it was.
#[verifier::external_body]
pub(crate) fn encryption_set_padding(crypter: &mut openssl::symm::Crypter, padding: bool)
    ensures
        encryption_session(*final(crypter)) == (
            encryption_session(*old(crypter)).0,
            encryption_session(*old(crypter)).1,
            padding,
            encryption_session(*old(crypter)).3,
        ),
{
    crypter.pad(padding)
}

/// Calls `openssl::symm::Crypter::update`, with `scratch` as the buffer to write to, and
/// hands back the bytes written.
///
/// Trusted: the bytes written depend on the session and the input alone, and the
/// encryption has then taken in the input after all it had taken in before. Nothing is
/// claimed about how many bytes are written. The preconditions give the buffer the room
/// that the binding asserts, and keep the lengths within a C `int`.
#[verifier::external_body]
pub(crate) fn encryption_update(
    crypter: &mut openssl::symm::Crypter,
    input: &[u8],
    scratch: Vec<u8>,
) -> (outcome: Result<Vec<u8>, openssl::error::ErrorStack>)
    requires
        input@.len() + BLOCK_LEN <= scratch@.len() <= MAX_CIPHER_INPUT,
    ensures
        match outcome {
            Ok(written) => aes256_cbc_update(
                encryption_session(*old(crypter)).0,
                encryption_session(*old(crypter)).1,
                encryption_session(*old(crypter)).2,
                encryption_session(*old(crypter)).3,
                input@,
            ) == Some(written@) && encryption_session(*final(crypter)) == (
                encryption_session(*old(crypter)).0,
                encryption_session(*old(crypter)).1,
                encryption_session(*old(crypter)).2,
                encryption_session(*old(crypter)).3 + input@,
            ),
            Err(_) => aes256_cbc_update(
                encryption_session(*old(crypter)).0,
                encryption_session(*old(crypter)).1,
                encryption_session(*old(crypter)).2,
                encryption_session(*old(crypter)).3,
                input@,
            ).is_none(),
        },
{
    let mut written = scratch;
    let count = crypter.update(input, &mut written)?;
    written.truncate(count);
    Ok(written)
}

/// Calls `openssl::symm::Crypter::finalize`, with `scratch` as the buffer to write to,
/// and hands back the bytes written.
///
/// Trusted: the bytes written depend on the session alone. Nothing is claimed about how
/// many bytes are written. The precondition gives the buffer the one block of room that
/// the binding asserts.
#[verifier::external_body]
pub(crate) fn encryption_finish(crypter: &mut openssl::symm::Crypter, scratch: Vec<u8>) -> (outcome:
    Result<Vec<u8>, openssl::error::ErrorStack>)
    requires
        BLOCK_LEN <= scratch@.len() <= MAX_CIPHER_INPUT,
    ensures
        match outcome {
            Ok(written) => aes256_cbc_final(
                encryption_session(*old(crypter)).0,
                encryption_session(*old(crypter)).1,
                encryption_session(*old(crypter)).2,
                encryption_session(*old(crypter)).3,
            ) == Some(written@),
            Err(_) => aes256_cbc_final(
                encryption_session(*old(crypter)).0,
                encryption_session(*old(crypter)).1,
                encryption_session(*old(crypter)).2,
                encryption_session(*old(crypter)).3,
            ).is_none(),
        },
{
    let mut written = scratch;
    let count = crypter.finalize(&mut written)?;
    written.truncate(count);
    Ok(written)
}

/// A buffer of `len` zero bytes for the cipher to write to.
fn zeroed(len: usize) -> (buffer: Vec<u8>)
    ensures
        buffer@.len() == len,
{
    let mut buffer: Vec<u8> = Vec::new();
    while buffer.len() < len
        invariant
            buffer@.len() <= len,
        decreases len - buffer@.len(),
    {
        buffer.push(0u8);
    }
    buffer
}

/// Encrypts `data` with AES-256-CBC under `key` and `iv`, without padding: sets the
/// encryption up, switches its padding off, feeds it the data and closes it.
pub fn encrypt_unpadded(key: &[u8], iv: &[u8], data: &[u8]) -> (ciphertext: Option<Vec<u8>>)
    requires
        key@.len() == KEY_LEN,
        iv@.len() == BLOCK_LEN,
        data@.len() + BLOCK_LEN <= MAX_CIPHER_INPUT,
    ensures
        answer_bytes(ciphertext) == unpadded_encryption(key@, iv@, data@),
{
    let mut crypter = match encryption_start(key, iv) {
        Ok(crypter) => crypter,
        Err(_) => { return None; },
    };
    encryption_set_padding(&mut crypter, false);
    let mut ciphertext = match encryption_update(&mut crypter, data, zeroed(data.len() + BLOCK_LEN)) {
        Ok(head) => head,
        Err(_) => { return None; },
    };
    assert(Seq::<u8>::empty() + data@ =~= data@);
    let tail = match encryption_finish(&mut crypter, zeroed(BLOCK_LEN)) {
        Ok(tail) => tail,
        Err(_) => { return None; },
    };
    let ghost head = ciphertext@;
    let mut i: usize = 0;
    while i < tail.len()
        invariant
            i <= tail@.len(),
            ciphertext@ =~= head + tail@.subrange(0, i as int),
        decreases tail@.len() - i,
    {
        ciphertext.push(tail[i]);
        i += 1;
    }
    assert(tail@.subrange(0, i as int) =~= tail@);
    Some(ciphertext)
}

} // verus!
