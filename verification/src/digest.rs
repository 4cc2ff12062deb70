use vstd::prelude::*;

verus! {

/// The SHA-512 hasher, known only by the bytes it has taken in.
#[verifier::external_type_specification]
#[verifier::external_body]
pub struct ExSha512Hasher(rs_sha512::Sha512Hasher);

/// The bytes that a hasher has taken in so far, in order.
pub uninterp spec fn absorbed(hasher: rs_sha512::Sha512Hasher) -> Seq<u8>;

/// The first eight bytes of the SHA-512 digest of `message`, read as a big-endian number.
pub uninterp spec fn sha512_leading_word(message: Seq<u8>) -> u64;

/// Calls `BuildHasher::build_hasher` on `Sha512State::default()`.
///
/// Trusted: the fresh hasher has taken in nothing.
#[verifier::external_body]
pub(crate) fn sha512_start() -> (hasher: rs_sha512::Sha512Hasher)
    ensures
        absorbed(hasher) == Seq::<u8>::empty(),
{
    std::hash::BuildHasher::build_hasher(&rs_sha512::Sha512State::default())
}

/// Calls `Hasher::write` of `Sha512Hasher`.
///
/// Trusted: the hasher has then taken in `bytes` after all it had taken in before.
#[verifier::external_body]
pub(crate) fn sha512_absorb(hasher: &mut rs_sha512::Sha512Hasher, bytes: &[u8])
    ensures
        absorbed(*final(hasher)) == absorbed(*old(hasher)) + bytes@,
{
    std::hash::Hasher::write(hasher, bytes)
}

/// Calls `Hasher::finish` of `Sha512Hasher`.
///
/// Trusted: the number returned depends on nothing but the bytes taken in, and it is the
/// one that `sha512_leading_word` names for them.
#[verifier::external_body]
pub(crate) fn sha512_finish(hasher: &rs_sha512::Sha512Hasher) -> (word: u64)
    ensures
        word == sha512_leading_word(absorbed(*hasher)),
{
    std::hash::Hasher::finish(hasher)
}

} // verus!
