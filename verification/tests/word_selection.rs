use mother_brain::error::PswdError;
use mother_brain::generator::Generator;
use mother_brain::padding::pad_to_fixed;
use mother_brain::words::{join_words, select_words};
use rand::{Rng, SeedableRng};
use rand_chacha::ChaCha8Rng;

fn four_words() -> Vec<String> {
    vec!["alpha".to_string(), "bravo".to_string(), "charlie".to_string(), "delta".to_string()]
}

fn drawn_directly(seed: u64, list: &[String], strength: u32) -> (String, u64) {
    let mut rng = ChaCha8Rng::seed_from_u64(seed);
    let mut joined = String::new();
    for _ in 0..strength {
        joined.push_str(&list[rng.gen_range(0..list.len())]);
        joined.push(' ');
    }
    (joined, rng.gen::<u64>())
}

#[test]
fn generator_draws_what_the_stream_gives() {
    let mut generator = Generator::from_seed(42);
    let mut rng = ChaCha8Rng::seed_from_u64(42);
    for bound in [1usize, 2, 4, 7, 1000, usize::MAX] {
        let index = generator.next_index(bound);
        assert!(index < bound);
        assert_eq!(index, rng.gen_range(0..bound));
    }
    assert_eq!(generator.next_word(), rng.gen::<u64>());
    let indices = generator.draw_indices(5, 20);
    let expected: Vec<usize> = (0..20).map(|_| rng.gen_range(0..5)).collect();
    assert_eq!(indices, expected);
    assert_eq!(generator.next_word(), rng.gen::<u64>());
}

#[test]
fn generator_depends_on_the_seed() {
    let a = Generator::from_seed(1).draw_indices(1000, 8);
    let b = Generator::from_seed(2).draw_indices(1000, 8);
    assert_ne!(a, b);
    assert_eq!(a, Generator::from_seed(1).draw_indices(1000, 8));
}

#[test]
fn drawing_nothing_leaves_the_stream_alone() {
    let mut generator = Generator::from_seed(9);
    assert_eq!(generator.draw_indices(4, 0), Vec::<usize>::new());
    assert_eq!(generator.next_word(), Generator::from_seed(9).next_word());
}

#[test]
fn joined_words_carry_a_trailing_space() {
    let joined = join_words(&four_words(), &vec![2, 0, 0, 3]);
    assert_eq!(joined, b"charlie alpha alpha delta ".to_vec());
}

#[test]
fn joining_no_index_gives_nothing() {
    assert_eq!(join_words(&four_words(), &vec![]), Vec::<u8>::new());
}

#[test]
fn joined_words_keep_their_encoding() {
    let list = vec!["é".to_string(), "日本".to_string()];
    assert_eq!(join_words(&list, &vec![1, 0]), "日本 é ".as_bytes().to_vec());
}

#[test]
fn selection_follows_the_seeded_stream() {
    let list = four_words();
    for seed in [0u64, 1, 0xdead_beef, u64::MAX] {
        for strength in 0u32..=10 {
            let (joined, mut generator) = select_words(seed, &list, strength).unwrap();
            let (expected, next) = drawn_directly(seed, &list, strength);
            assert_eq!(joined, expected.into_bytes());
            assert_eq!(generator.next_word(), next);
        }
    }
}

#[test]
fn selection_golden_value() {
    let (joined, mut generator) = select_words(7, &four_words(), 3).unwrap();
    assert_eq!(String::from_utf8(joined).unwrap(), "charlie bravo alpha ");
    assert_eq!(generator.next_word(), 15666632647712377470);
}

#[test]
fn strength_zero_selects_nothing() {
    let (joined, _) = select_words(5, &four_words(), 0).unwrap();
    assert!(joined.is_empty());
}

#[test]
fn selection_draws_with_repetition() {
    let list = vec!["only".to_string()];
    let (joined, _) = select_words(123, &list, 4).unwrap();
    assert_eq!(joined, b"only only only only ".to_vec());
}

#[test]
fn empty_word_list_is_refused() {
    assert_eq!(select_words(5, &Vec::new(), 3).err(), Some(PswdError::EmptyWordList));
    assert_eq!(select_words(5, &Vec::new(), 0).err(), Some(PswdError::EmptyWordList));
}

#[test]
fn padding_fills_with_spaces_to_the_buffer_length() {
    let buffer = pad_to_fixed(b"alpha bravo ").unwrap();
    let bytes = buffer.as_bytes();
    assert_eq!(bytes.len(), 512);
    assert_eq!(&bytes[..12], b"alpha bravo ");
    assert!(bytes[12..].iter().all(|b| *b == b' '));
}

#[test]
fn padding_an_empty_text_is_all_spaces() {
    let buffer = pad_to_fixed(b"").unwrap();
    assert_eq!(buffer.as_bytes(), &[b' '; 512][..]);
}

#[test]
fn text_of_exactly_the_buffer_length_is_kept() {
    let text = vec![b'x'; 512];
    let buffer = pad_to_fixed(&text).unwrap();
    assert_eq!(buffer.as_bytes(), &text[..]);
}

#[test]
fn text_longer_than_the_buffer_is_refused() {
    let text = vec![b'x'; 513];
    assert_eq!(pad_to_fixed(&text).err(), Some(PswdError::WordsTooLong));
}

#[test]
fn drawn_indices_lie_below_the_bound() {
    for bound in [1usize, 2, 3, 10, 7776] {
        for seed in 0u64..20 {
            let indices = Generator::from_seed(seed).draw_indices(bound, 10);
            assert_eq!(indices.len(), 10);
            assert!(indices.iter().all(|index| *index < bound));
        }
    }
}
