use crate::error::PswdError;
use crate::generator::{chacha8_seeded, drawn_indices, draws_within, state_after, Generator};
use vstd::prelude::*;
use vstd::string::*;
use vstd::utf8::*;

verus! {

/// The byte that follows every drawn word: a space.
pub const WORD_SEPARATOR: u8 = 0x20;

/// The words of a list as the bytes that encode each.
pub open spec fn list_bytes(word_list: Seq<String>) -> Seq<Seq<u8>> {
    Seq::new(word_list.len(), |i: int| encode_utf8(word_list[i]@))
}

/// Whether no word of the list takes more than `longest` bytes.
pub open spec fn words_fit(word_list: Seq<String>, longest: nat) -> bool {
    forall|i: int| 0 <= i < word_list.len() ==> encode_utf8(#[trigger] word_list[i]@).len() <= longest
}

/// The words that `indices` pick from `list`, each followed by a separator.
pub open spec fn joined_words(list: Seq<Seq<u8>>, indices: Seq<usize>) -> Seq<u8>
    decreases indices.len(),
{
    if indices.len() == 0 {
        Seq::empty()
    } else {
        joined_words(list, indices.drop_last()) + list[indices.last() as int]
            + seq![WORD_SEPARATOR]
    }
}

/// The joined words that a seed selects at a given strength, with the state the
/// generator is left in; an empty word list is an error.
pub open spec fn selection_of(seed: u64, word_list: Seq<String>, strength: u32) -> Result<
    (Seq<u8>, rand_chacha::ChaCha8Rng),
    PswdError,
> {
    if word_list.len() == 0 {
        Err(PswdError::EmptyWordList)
    } else {
        let start = chacha8_seeded(seed);
        let bound = word_list.len() as usize;
        Ok(
            (
                joined_words(
                    list_bytes(word_list),
                    drawn_indices(start, bound, strength as nat),
                ),
                state_after(start, bound, strength as nat),
            ),
        )
    }
}

/// At strength zero nothing is drawn: the joined words are empty and the generator is
/// still as the seed made it.
pub proof fn lemma_strength_zero_selects_nothing(seed: u64, word_list: Seq<String>)
    requires
        0 < word_list.len() <= usize::MAX,
    ensures
        selection_of(seed, word_list, 0) == Ok::<(Seq<u8>, rand_chacha::ChaCha8Rng), PswdError>(
            (Seq::<u8>::empty(), chacha8_seeded(seed)),
        ),
{
    let start = chacha8_seeded(seed);
    let bound = word_list.len() as usize;
    assert(drawn_indices(start, bound, 0) =~= Seq::<usize>::empty());
}

/// Every drawn word is in the joined text, a separator behind it: the text grows by the
/// word and one byte with each draw.
pub proof fn lemma_joined_grows(list: Seq<Seq<u8>>, indices: Seq<usize>, next: usize)
    ensures
        joined_words(list, indices.push(next)) == joined_words(list, indices) + list[next as int]
            + seq![WORD_SEPARATOR],
{
    assert(indices.push(next).drop_last() =~= indices);
}

/// Words picked from a list whose words are no longer than `longest` take no more room
/// than that and one separator for each pick.
pub proof fn lemma_joined_len_bound(list: Seq<Seq<u8>>, indices: Seq<usize>, longest: nat)
    requires
        forall|k: int| 0 <= k < indices.len() ==> indices[k] < list.len(),
        forall|i: int| 0 <= i < list.len() ==> (#[trigger] list[i]).len() <= longest,
    ensures
        joined_words(list, indices).len() <= indices.len() * (longest + 1),
    decreases indices.len(),
{
    if indices.len() > 0 {
        let front = indices.drop_last();
        lemma_joined_len_bound(list, front, longest);
        assert(list[indices.last() as int].len() <= longest);
        assert(indices.len() * (longest + 1) == front.len() * (longest + 1) + (longest + 1))
            by (nonlinear_arith)
            requires
                indices.len() == front.len() + 1,
        ;
    }
}

/// Joins the words that `indices` pick from the list, a space after each.
pub fn join_words(word_list: &Vec<String>, indices: &Vec<usize>) -> (joined: Vec<u8>)
    requires
        forall|k: int| 0 <= k < indices@.len() ==> indices@[k] < word_list@.len(),
    ensures
        joined@ == joined_words(list_bytes(word_list@), indices@),
{
    let mut joined: Vec<u8> = Vec::new();
    let mut k: usize = 0;
    while k < indices.len()
        invariant
            k <= indices@.len(),
            forall|k: int| 0 <= k < indices@.len() ==> indices@[k] < word_list@.len(),
            joined@ == joined_words(list_bytes(word_list@), indices@.subrange(0, k as int)),
        decreases indices@.len() - k,
    {
        let word = word_list[indices[k]].as_str().as_bytes();
        let ghost before = joined@;
        let mut j: usize = 0;
        while j < word.len()
            invariant
                j <= word@.len(),
                joined@ =~= before + word@.subrange(0, j as int),
            decreases word@.len() - j,
        {
            joined.push(word[j]);
            j += 1;
        }
        joined.push(WORD_SEPARATOR);
        proof {
            let taken = indices@.subrange(0, k + 1);
            assert(taken.drop_last() =~= indices@.subrange(0, k as int));
            assert(taken.last() == indices@[k as int]);
            assert(word@.subrange(0, j as int) =~= word@);
            assert(word@ == list_bytes(word_list@)[indices@[k as int] as int]);
            assert(joined@ =~= before + word@ + seq![WORD_SEPARATOR]);
        }
        k += 1;
    }
    assert(indices@.subrange(0, k as int) =~= indices@);
    joined
}

/// Seeds the generator and draws `strength` words from the list, with repetition, in
/// draw order. Returns the words joined, a space after each, and the generator as the
/// draws left it.
pub fn select_words(seed: u64, word_list: &Vec<String>, strength: u32) -> (selection: Result<
    (Vec<u8>, Generator),
    PswdError,
>)
    ensures
        match selection {
            Ok((joined, generator)) => selection_of(seed, word_list@, strength) == Ok::<
                (Seq<u8>, rand_chacha::ChaCha8Rng),
                PswdError,
            >((joined@, generator.state())),
            Err(e) => selection_of(seed, word_list@, strength) == Err::<
                (Seq<u8>, rand_chacha::ChaCha8Rng),
                PswdError,
            >(e),
        },
        word_list@.len() > 0 ==> draws_within(
            chacha8_seeded(seed),
            word_list@.len() as usize,
            strength as nat,
        ),
{
    if word_list.len() == 0 {
        return Err(PswdError::EmptyWordList);
    }
    let mut generator = Generator::from_seed(seed);
    let indices = generator.draw_indices(word_list.len(), strength);
    let joined = join_words(word_list, &indices);
    Ok((joined, generator))
}

} // verus!
