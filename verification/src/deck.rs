//! Deck construction and the seeded shuffle shared by the two card games.
//!
//! The shuffle is a Fisher-Yates pass driven by a linear-congruential
//! generator, so the order of the cards is a pure function of the seed:
//! identical seeds give identical decks.

use vstd::prelude::*;
use crate::types::{Card, Suit};

verus! {

/// Multiplier of the linear-congruential generator.
pub const LCG_MULTIPLIER: u64 = 6364136223846793005;

/// One step of the linear-congruential generator.
#[verifier::opaque]
pub open spec fn spec_lcg_next(state: u64) -> u64 {
    state.wrapping_mul(LCG_MULTIPLIER).wrapping_add(1)
}

/// One step of the linear-congruential generator.
pub fn lcg_next(state: u64) -> (r: u64)
    ensures
        r == spec_lcg_next(state),
{
    proof {
        reveal(spec_lcg_next);
    }
    state.wrapping_mul(LCG_MULTIPLIER).wrapping_add(1)
}

/// The suit of position `i` when suits are laid out in blocks of thirteen
/// ranks: hearts, diamonds, clubs, spades.
pub open spec fn spec_suit_of_block(b: int) -> Suit {
    if b == 0 {
        Suit::Hearts
    } else if b == 1 {
        Suit::Diamonds
    } else if b == 2 {
        Suit::Clubs
    } else {
        Suit::Spades
    }
}

/// Card at position `i` of an unshuffled pile of concatenated 52-card
/// decks: ranks 2..=14 within each suit block.
pub open spec fn spec_ordered_card(i: int) -> Card {
    Card { rank: (2 + (i % 13)) as u8, suit: spec_suit_of_block((i / 13) % 4) }
}

/// The deck after the Fisher-Yates pass has handled positions
/// `i, i - 1, ..., 1` of `s`, starting from generator state `state`.
pub open spec fn spec_shuffle_from(s: Seq<Card>, state: u64, i: int) -> Seq<Card>
    decreases i,
{
    if i < 1 || i >= s.len() {
        s
    } else {
        let next = spec_lcg_next(state);
        let j = (next % ((i + 1) as u64)) as int;
        spec_shuffle_from(s.update(i, s[j]).update(j, s[i]), next, i - 1)
    }
}

/// The full shuffle of `s` under `seed`.
pub open spec fn spec_shuffle(s: Seq<Card>, seed: u64) -> Seq<Card> {
    spec_shuffle_from(s, seed, s.len() - 1)
}

/// `n_decks` concatenated 52-card decks, shuffled under `seed`.
pub open spec fn spec_shuffled_deck(n_decks: int, seed: u64) -> Seq<Card> {
    spec_shuffle(Seq::new((52 * n_decks) as nat, |i: int| spec_ordered_card(i)), seed)
}

/// Builds `n_decks` concatenated 52-card decks in suit-block order.
pub fn build_deck(n_decks: usize) -> (deck: Vec<Card>)
    requires
        n_decks <= 6,
    ensures
        deck@.len() == 52 * n_decks,
        deck@ == Seq::new((52 * n_decks) as nat, |i: int| spec_ordered_card(i)),
        forall|i: int| 0 <= i < deck@.len() ==> (#[trigger] deck@[i]).valid(),
{
    let mut deck: Vec<Card> = Vec::new();
    let mut d: usize = 0;
    while d < n_decks
        invariant
            d <= n_decks <= 6,
            deck@.len() == 52 * d,
            forall|i: int| 0 <= i < deck@.len() ==> deck@[i] == spec_ordered_card(i),
        decreases n_decks - d,
    {
        let mut b: usize = 0;
        while b < 4
            invariant
                b <= 4,
                d < n_decks <= 6,
                deck@.len() == 52 * d + 13 * b,
                forall|i: int| 0 <= i < deck@.len() ==> deck@[i] == spec_ordered_card(i),
            decreases 4 - b,
        {
            let suit = if b == 0 {
                Suit::Hearts
            } else if b == 1 {
                Suit::Diamonds
            } else if b == 2 {
                Suit::Clubs
            } else {
                Suit::Spades
            };
            let mut rank: u8 = 2;
            while rank <= 14
                invariant
                    2 <= rank <= 15,
                    b < 4,
                    d < n_decks <= 6,
                    suit == spec_suit_of_block(b as int),
                    deck@.len() == 52 * d + 13 * b + (rank - 2),
                    forall|i: int| 0 <= i < deck@.len() ==> deck@[i] == spec_ordered_card(i),
                decreases 15 - rank,
            {
                proof {
                    let n = deck@.len() as int;
                    assert(n % 13 == rank - 2) by (nonlinear_arith)
                        requires
                            n == 52 * (d as int) + 13 * (b as int) + (rank - 2),
                            2 <= rank <= 14,
                        ;
                    assert((n / 13) % 4 == b as int) by (nonlinear_arith)
                        requires
                            n == 52 * (d as int) + 13 * (b as int) + (rank - 2),
                            2 <= rank <= 14,
                            0 <= b < 4,
                            0 <= d,
                        ;
                }
                deck.push(Card { rank, suit });
                rank = rank + 1;
            }
            b = b + 1;
        }
        d = d + 1;
    }
    proof {
        assert(deck@ =~= Seq::new((52 * n_decks) as nat, |i: int| spec_ordered_card(i)));
        assert forall|i: int| 0 <= i < deck@.len() implies (#[trigger] deck@[i]).valid() by {
            assert(0 <= i % 13 < 13) by (nonlinear_arith);
        }
    }
    deck
}

/// Shuffles `deck` in place with a Fisher-Yates pass driven by the
/// linear-congruential generator seeded with `seed`.
#[verifier::rlimit(60)]
pub fn shuffle(deck: &mut Vec<Card>, seed: u64)
    ensures
        final(deck)@ == spec_shuffle(old(deck)@, seed),
        final(deck)@.len() == old(deck)@.len(),
{
    let ghost orig = deck@;
    let mut state: u64 = seed;
    if deck.len() == 0 {
        return;
    }
    let n: usize = deck.len();
    let mut i: usize = n - 1;
    while i >= 1
        invariant
            i < n,
            n == deck@.len(),
            deck@.len() == orig.len(),
            spec_shuffle_from(deck@, state, i as int) == spec_shuffle(orig, seed),
        decreases i,
    {
        state = lcg_next(state);
        let j: usize = (state % ((i + 1) as u64)) as usize;
        let tmp_i = deck[i];
        let tmp_j = deck[j];
        deck[i] = tmp_j;
        deck[j] = tmp_i;
        i = i - 1;
    }
}

/// Shuffling moves cards around but never invents one: a pile of valid
/// cards stays a pile of valid cards.
pub proof fn lemma_shuffle_from_valid(s: Seq<Card>, state: u64, i: int)
    requires
        s.len() <= u64::MAX,
        forall|k: int| 0 <= k < s.len() ==> (#[trigger] s[k]).valid(),
    ensures
        forall|k: int|
            0 <= k < spec_shuffle_from(s, state, i).len() ==> (#[trigger] spec_shuffle_from(
                s,
                state,
                i,
            )[k]).valid(),
    decreases i,
{
    if 1 <= i < s.len() {
        let next = spec_lcg_next(state);
        let j = (next % ((i + 1) as u64)) as int;
        assert(0 <= j < i + 1);
        let swapped = s.update(i, s[j]).update(j, s[i]);
        assert(forall|k: int| 0 <= k < swapped.len() ==> (#[trigger] swapped[k]).valid());
        lemma_shuffle_from_valid(swapped, next, i - 1);
        assert(spec_shuffle_from(s, state, i) == spec_shuffle_from(swapped, next, i - 1));
    }
}

/// A shuffle only reorders the pile: the multiset of cards that comes
/// out is exactly the multiset that went in.
pub proof fn lemma_shuffle_is_permutation(s: Seq<Card>, seed: u64)
    requires
        s.len() <= u64::MAX,
    ensures
        spec_shuffle(s, seed).to_multiset() == s.to_multiset(),
{
    lemma_shuffle_from_multiset(s, seed, s.len() - 1);
}

/// Each Fisher-Yates step swaps two cards in place, so the multiset of
/// cards never changes.
pub proof fn lemma_shuffle_from_multiset(s: Seq<Card>, state: u64, i: int)
    requires
        s.len() <= u64::MAX,
    ensures
        spec_shuffle_from(s, state, i).to_multiset() == s.to_multiset(),
    decreases i,
{
    broadcast use vstd::seq_lib::to_multiset_update;
    broadcast use vstd::seq_lib::group_to_multiset_ensures;
    broadcast use vstd::multiset::group_multiset_axioms;
    broadcast use vstd::multiset::group_multiset_properties;

    if 1 <= i < s.len() {
        let next = spec_lcg_next(state);
        let j = (next % ((i + 1) as u64)) as int;
        assert(0 <= j < i + 1);
        let once = s.update(i, s[j]);
        let swapped = once.update(j, s[i]);
        assert(s.contains(s[i]) && s.contains(s[j]));
        assert(once.to_multiset() == s.to_multiset().insert(s[j]).remove(s[i]));
        assert(swapped.to_multiset() == once.to_multiset().insert(s[i]).remove(once[j]));
        assert(swapped.to_multiset() =~= s.to_multiset());
        lemma_shuffle_from_multiset(swapped, next, i - 1);
        assert(spec_shuffle_from(s, state, i) == spec_shuffle_from(swapped, next, i - 1));
    }
}

/// The length of a shuffled sequence equals the length shuffled.
pub proof fn lemma_shuffle_from_len(s: Seq<Card>, state: u64, i: int)
    requires
        s.len() <= u64::MAX,
    ensures
        spec_shuffle_from(s, state, i).len() == s.len(),
    decreases i,
{
    if 1 <= i < s.len() {
        let next = spec_lcg_next(state);
        let j = (next % ((i + 1) as u64)) as int;
        assert(0 <= j < i + 1);
        lemma_shuffle_from_len(s.update(i, s[j]).update(j, s[i]), next, i - 1);
    }
}

} // verus!
