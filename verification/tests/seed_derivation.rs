use mother_brain::key::RecoveredKey;
use mother_brain::seed::derive_seed;
use rs_sha512::Sha512State;
use std::hash::{BuildHasher, Hash, Hasher};

fn key_of(bytes: &[u8]) -> RecoveredKey {
    RecoveredKey::from_bytes(bytes).unwrap()
}

fn counting_key() -> Vec<u8> {
    (0u8..32).collect()
}

fn hashed_by_parts(key: &[u8], hint: &str, strength: u32) -> u64 {
    let mut hasher = Sha512State::default().build_hasher();
    key[4..20].hash(&mut hasher);
    hint.to_string().hash(&mut hasher);
    strength.hash(&mut hasher);
    hasher.finish()
}

fn hashed_as_message(key: &[u8], hint: &str, strength: u32) -> u64 {
    let mut message = vec![16u8, 0, 0, 0, 0, 0, 0, 0];
    message.extend_from_slice(&key[4..20]);
    message.extend_from_slice(hint.as_bytes());
    message.push(0xff);
    message.extend_from_slice(&strength.to_le_bytes());
    let mut hasher = Sha512State::default().build_hasher();
    hasher.write(&message);
    hasher.finish()
}

#[test]
fn seed_is_the_hash_of_key_part_hint_and_strength() {
    let key = counting_key();
    for strength in [0u32, 1, 3, 6, 10, 255, 256, 65536, u32::MAX] {
        for hint in ["", "bank", "a longer hint, with spaces", "héllo"] {
            let seed = derive_seed(&key_of(&key), hint, strength);
            assert_eq!(seed, hashed_by_parts(&key, hint, strength));
            assert_eq!(seed, hashed_as_message(&key, hint, strength));
        }
    }
}

#[test]
fn seed_golden_value() {
    let seed = derive_seed(&key_of(&counting_key()), "bank", 3);
    assert_eq!(seed, 3325239974168514006);
}

#[test]
fn seed_is_stable_across_calls() {
    let key = key_of(&counting_key());
    assert_eq!(derive_seed(&key, "bank", 3), derive_seed(&key, "bank", 3));
}

#[test]
fn seed_changes_with_the_strength() {
    let key = key_of(&counting_key());
    for k in 1u32..10 {
        assert_ne!(derive_seed(&key, "bank", k), derive_seed(&key, "bank", k + 1));
    }
}

#[test]
fn seed_changes_with_the_hint() {
    let key = key_of(&counting_key());
    assert_ne!(derive_seed(&key, "bank", 3), derive_seed(&key, "mail", 3));
}

#[test]
fn seed_reads_only_the_fixed_part_of_the_key() {
    let base = counting_key();
    let reference = derive_seed(&key_of(&base), "bank", 3);
    for position in 0..32 {
        let mut changed = base.clone();
        changed[position] ^= 0x80;
        let seed = derive_seed(&key_of(&changed), "bank", 3);
        if (4..20).contains(&position) {
            assert_ne!(seed, reference, "byte {} belongs to the part", position);
        } else {
            assert_eq!(seed, reference, "byte {} lies outside the part", position);
        }
    }
}
