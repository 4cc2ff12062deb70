use crate::cipher::KEY_LEN;
use crate::digest::{absorbed, sha512_absorb, sha512_finish, sha512_leading_word, sha512_start};
use crate::key::RecoveredKey;
use vstd::prelude::*;
use vstd::string::*;

verus! {

/// Where the part of the key that enters the seed begins.
pub const KEY_PART_START: usize = 4;

/// Where the part of the key that enters the seed ends.
pub const KEY_PART_END: usize = 20;

/// The byte that closes the hint inside the hashed message.
pub const HINT_END: u8 = 0xff;

/// The four bytes of `value`, the least significant first.
pub open spec fn little_endian(value: u32) -> Seq<u8> {
    seq![
        (value % 0x100) as u8,
        (value / 0x100 % 0x100) as u8,
        (value / 0x1_0000 % 0x100) as u8,
        (value / 0x100_0000) as u8,
    ]
}

/// The length of the key part as eight bytes, the least significant first.
pub open spec fn key_part_len() -> Seq<u8> {
    seq![0x10u8, 0u8, 0u8, 0u8, 0u8, 0u8, 0u8, 0u8]
}

/// The message whose hash is the seed: the length of the key part, the key part, the
/// hint, the byte that closes the hint, and the strength.
pub open spec fn seed_message(key: Seq<u8>, hint: Seq<u8>, strength: u32) -> Seq<u8> {
    key_part_len() + key.subrange(KEY_PART_START as int, KEY_PART_END as int) + hint
        + seq![HINT_END] + little_endian(strength)
}

/// The seed that a key, a hint and a strength derive.
pub open spec fn seed_of(key: Seq<u8>, hint: Seq<u8>, strength: u32) -> u64 {
    sha512_leading_word(seed_message(key, hint, strength))
}

/// Four bytes, the least significant first, give back the value they came from.
pub proof fn lemma_little_endian_injective(a: u32, b: u32)
    requires
        little_endian(a) == little_endian(b),
    ensures
        a == b,
{
    let x = little_endian(a);
    let y = little_endian(b);
    assert(x[0] == y[0] && x[1] == y[1] && x[2] == y[2] && x[3] == y[3]);
    let a0: u32 = a % 0x100;
    let a1: u32 = a / 0x100 % 0x100;
    let a2: u32 = a / 0x1_0000 % 0x100;
    let a3: u32 = a / 0x100_0000;
    let b0: u32 = b % 0x100;
    let b1: u32 = b / 0x100 % 0x100;
    let b2: u32 = b / 0x1_0000 % 0x100;
    let b3: u32 = b / 0x100_0000;
    assert(a0 == b0 && a1 == b1 && a2 == b2 && a3 == b3);
    assert(a == b) by (bit_vector)
        requires
            a0 == a % 0x100,
            a1 == a / 0x100 % 0x100,
            a2 == a / 0x1_0000 % 0x100,
            a3 == a / 0x100_0000,
            b0 == b % 0x100,
            b1 == b / 0x100 % 0x100,
            b2 == b / 0x1_0000 % 0x100,
            b3 == b / 0x100_0000,
            a0 == b0,
            a1 == b1,
            a2 == b2,
            a3 == b3,
    ;
}

/// The hashed message tells apart any two requests that differ in the key part, in the
/// hint or in the strength: equal messages come from equal inputs.
pub proof fn lemma_seed_message_injective(
    key_a: Seq<u8>,
    hint_a: Seq<u8>,
    strength_a: u32,
    key_b: Seq<u8>,
    hint_b: Seq<u8>,
    strength_b: u32,
)
    requires
        key_a.len() == KEY_LEN,
        key_b.len() == KEY_LEN,
        seed_message(key_a, hint_a, strength_a) == seed_message(key_b, hint_b, strength_b),
    ensures
        key_a.subrange(KEY_PART_START as int, KEY_PART_END as int) == key_b.subrange(
            KEY_PART_START as int,
            KEY_PART_END as int,
        ),
        hint_a == hint_b,
        strength_a == strength_b,
{
    let part_a = key_a.subrange(KEY_PART_START as int, KEY_PART_END as int);
    let part_b = key_b.subrange(KEY_PART_START as int, KEY_PART_END as int);
    let ma = seed_message(key_a, hint_a, strength_a);
    let mb = seed_message(key_b, hint_b, strength_b);
    assert(ma.len() == 29 + hint_a.len());
    assert(mb.len() == 29 + hint_b.len());
    assert(hint_a.len() == hint_b.len());
    assert forall|i: int| 0 <= i < 16 implies part_a[i] == part_b[i] by {
        assert(ma[8 + i] == part_a[i]);
        assert(mb[8 + i] == part_b[i]);
    }
    assert(part_a =~= part_b);
    assert forall|i: int| 0 <= i < hint_a.len() implies hint_a[i] == hint_b[i] by {
        assert(ma[24 + i] == hint_a[i]);
        assert(mb[24 + i] == hint_b[i]);
    }
    assert(hint_a =~= hint_b);
    let la = little_endian(strength_a);
    let lb = little_endian(strength_b);
    assert forall|i: int| 0 <= i < 4 implies la[i] == lb[i] by {
        assert(ma[25 + hint_a.len() + i] == la[i]);
        assert(mb[25 + hint_b.len() + i] == lb[i]);
    }
    assert(la =~= lb);
    lemma_little_endian_injective(strength_a, strength_b);
}

/// Two strengths never share a hashed message, whatever the key and the hint: the word
/// sequence of one strength is not drawn from the seed of another by construction.
pub proof fn lemma_strength_changes_message(
    key: Seq<u8>,
    hint: Seq<u8>,
    strength_a: u32,
    strength_b: u32,
)
    requires
        key.len() == KEY_LEN,
        strength_a != strength_b,
    ensures
        seed_message(key, hint, strength_a) != seed_message(key, hint, strength_b),
{
    if seed_message(key, hint, strength_a) == seed_message(key, hint, strength_b) {
        lemma_seed_message_injective(key, hint, strength_a, key, hint, strength_b);
    }
}

/// Derives the 64-bit seed from a fixed part of the key, the hint and the strength.
pub fn derive_seed(key: &RecoveredKey, hint: &str, strength: u32) -> (seed: u64)
    ensures
        seed == seed_of(key@, hint.spec_bytes(), strength),
{
    let key_bytes = key.as_bytes();
    let mut hasher = sha512_start();

    let mut prefix: Vec<u8> = Vec::new();
    prefix.push(0x10u8);
    let mut i: usize = 1;
    while i < 8
        invariant
            1 <= i <= 8,
            prefix@ =~= key_part_len().subrange(0, i as int),
        decreases 8 - i,
    {
        prefix.push(0u8);
        i += 1;
    }
    assert(prefix@ =~= key_part_len());
    sha512_absorb(&mut hasher, prefix.as_slice());

    let mut part: Vec<u8> = Vec::new();
    let mut j: usize = KEY_PART_START;
    while j < KEY_PART_END
        invariant
            KEY_PART_START <= j <= KEY_PART_END,
            key_bytes@.len() == KEY_LEN,
            part@ =~= key_bytes@.subrange(KEY_PART_START as int, j as int),
        decreases KEY_PART_END - j,
    {
        part.push(key_bytes[j]);
        j += 1;
    }
    sha512_absorb(&mut hasher, part.as_slice());

    sha512_absorb(&mut hasher, hint.as_bytes());

    let mut tail: Vec<u8> = Vec::new();
    tail.push(HINT_END);
    tail.push((strength % 0x100) as u8);
    tail.push((strength / 0x100 % 0x100) as u8);
    tail.push((strength / 0x1_0000 % 0x100) as u8);
    tail.push((strength / 0x100_0000) as u8);
    assert(tail@ =~= seq![HINT_END] + little_endian(strength));
    sha512_absorb(&mut hasher, tail.as_slice());

    assert(absorbed(hasher) =~= seed_message(key@, hint.spec_bytes(), strength));
    sha512_finish(&hasher)
}

} // verus!
