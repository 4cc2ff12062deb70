use vstd::prelude::*;

verus! {

/// The ChaCha generator with eight rounds, known only by what it draws.
#[verifier::external_type_specification]
#[verifier::external_body]
pub struct ExChaCha8Rng(rand_chacha::ChaCha8Rng);

/// The generator that a 64-bit seed expands to.
pub uninterp spec fn chacha8_seeded(seed: u64) -> rand_chacha::ChaCha8Rng;

/// The index that a generator in state `rng` draws below `bound`, and the state it is
/// left in.
pub uninterp spec fn chacha8_draw_below(rng: rand_chacha::ChaCha8Rng, bound: usize) -> (
    usize,
    rand_chacha::ChaCha8Rng,
);

/// The 64-bit word that a generator in state `rng` draws, and the state it is left in.
pub uninterp spec fn chacha8_draw_word(rng: rand_chacha::ChaCha8Rng) -> (
    u64,
    rand_chacha::ChaCha8Rng,
);

/// Calls `SeedableRng::seed_from_u64` of `ChaCha8Rng`.
///
/// Trusted: the generator returned depends on the seed alone.
#[verifier::external_body]
pub(crate) fn chacha8_seed(seed: u64) -> (rng: rand_chacha::ChaCha8Rng)
    ensures
        rng == chacha8_seeded(seed),
{
    rand::SeedableRng::seed_from_u64(seed)
}

/// Calls `Rng::gen_range` of `ChaCha8Rng` with the range `0..bound`.
///
/// Trusted: the index and the state left behind depend on the state before and on the
/// bound alone, on one target (the draw is as wide as a `usize` there), and the index
/// lies below the bound. An empty range is kept out, on which the call panics.
#[verifier::external_body]
pub(crate) fn chacha8_next_below(rng: &mut rand_chacha::ChaCha8Rng, bound: usize) -> (index: usize)
    requires
        bound > 0,
    ensures
        index < bound,
        index == chacha8_draw_below(*old(rng), bound).0,
        *final(rng) == chacha8_draw_below(*old(rng), bound).1,
{
    rand::Rng::gen_range(rng, 0..bound)
}

/// Calls `Rng::gen::<u64>` of `ChaCha8Rng`.
///
/// Trusted: the word and the state left behind depend on the state before alone.
#[verifier::external_body]
pub(crate) fn chacha8_next_word(rng: &mut rand_chacha::ChaCha8Rng) -> (word: u64)
    ensures
        word == chacha8_draw_word(*old(rng)).0,
        *final(rng) == chacha8_draw_word(*old(rng)).1,
{
    rand::Rng::gen::<u64>(rng)
}

/// The state that `count` draws below `bound` leave a generator in that started as `rng`.
pub open spec fn state_after(rng: rand_chacha::ChaCha8Rng, bound: usize, count: nat)
    -> rand_chacha::ChaCha8Rng
    decreases count,
{
    if count == 0 {
        rng
    } else {
        chacha8_draw_below(state_after(rng, bound, (count - 1) as nat), bound).1
    }
}

/// The index that comes out of the draw after `earlier` draws below the same bound.
pub open spec fn index_at(rng: rand_chacha::ChaCha8Rng, bound: usize, earlier: nat) -> usize {
    chacha8_draw_below(state_after(rng, bound, earlier), bound).0
}

/// The indices that `count` successive draws below `bound` give, in the order drawn.
pub open spec fn drawn_indices(rng: rand_chacha::ChaCha8Rng, bound: usize, count: nat) -> Seq<
    usize,
> {
    Seq::new(count, |k: int| index_at(rng, bound, k as nat))
}

/// Whether each of `count` successive draws below `bound` gives an index below it.
pub open spec fn draws_within(rng: rand_chacha::ChaCha8Rng, bound: usize, count: nat) -> bool {
    forall|m: int| 0 <= m < count ==> #[trigger] drawn_indices(rng, bound, count)[m] < bound
}

/// The one stream of pseudo-random numbers that serves a request: the words are drawn
/// from it first, the initialization vector after them.
pub struct Generator {
    rng: rand_chacha::ChaCha8Rng,
}

impl Generator {
    /// The state of the stream.
    pub closed spec fn state(&self) -> rand_chacha::ChaCha8Rng {
        self.rng
    }

    /// Starts the stream that belongs to `seed`.
    pub fn from_seed(seed: u64) -> (generator: Generator)
        ensures
            generator.state() == chacha8_seeded(seed),
    {
        Generator { rng: chacha8_seed(seed) }
    }

    /// Draws an index below `bound`.
    pub fn next_index(&mut self, bound: usize) -> (index: usize)
        requires
            bound > 0,
        ensures
            index < bound,
            index == chacha8_draw_below(old(self).state(), bound).0,
            final(self).state() == chacha8_draw_below(old(self).state(), bound).1,
    {
        chacha8_next_below(&mut self.rng, bound)
    }

    /// Draws a 64-bit word.
    pub fn next_word(&mut self) -> (word: u64)
        ensures
            word == chacha8_draw_word(old(self).state()).0,
            final(self).state() == chacha8_draw_word(old(self).state()).1,
    {
        chacha8_next_word(&mut self.rng)
    }

    /// Draws `count` indices below `bound`, one after the other.
    pub fn draw_indices(&mut self, bound: usize, count: u32) -> (indices: Vec<usize>)
        requires
            bound > 0,
        ensures
            indices@ == drawn_indices(old(self).state(), bound, count as nat),
            final(self).state() == state_after(old(self).state(), bound, count as nat),
            draws_within(old(self).state(), bound, count as nat),
    {
        let ghost start = self.state();
        let mut indices: Vec<usize> = Vec::new();
        let mut drawn: u32 = 0;
        while drawn < count
            invariant
                bound > 0,
                drawn <= count,
                self.state() == state_after(start, bound, drawn as nat),
                indices@ =~= drawn_indices(start, bound, drawn as nat),
                forall|k: int| 0 <= k < indices@.len() ==> indices@[k] < bound,
            decreases count - drawn,
        {
            let index = self.next_index(bound);
            indices.push(index);
            drawn += 1;
        }
        indices
    }
}

} // verus!
