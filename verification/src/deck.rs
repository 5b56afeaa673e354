//! Deck construction, shuffling, and the shared card source.

use vstd::prelude::*;
use vstd::seq_lib::lemma_multiset_commutative;
use rand::seq::SliceRandom;

use crate::card::{Card, card_value};

verus! {

/// The thirteen ranks in the order a fresh deck lists them.
pub open spec fn rank_list() -> Seq<Card> {
    Seq::empty()
        .push(Card::A)
        .push(Card::Two)
        .push(Card::Three)
        .push(Card::Four)
        .push(Card::Five)
        .push(Card::Six)
        .push(Card::Seven)
        .push(Card::Eight)
        .push(Card::Nine)
        .push(Card::Ten)
        .push(Card::J)
        .push(Card::Q)
        .push(Card::K)
}

/// `n` copies of the thirteen ranks, concatenated: the contents of an
/// `n`-deck shoe before shuffling.
pub open spec fn shoe(n: nat) -> Seq<Card>
    decreases n,
{
    if n == 0 {
        Seq::empty()
    } else {
        shoe((n - 1) as nat) + rank_list()
    }
}

/// The cursor position after one draw from a source of `n` cards.
pub open spec fn bump(cursor: int, n: int) -> int {
    (cursor + 1) % n
}

#[verifier::external_type_specification]
#[verifier::external_body]
pub struct ExThreadRng(rand::rngs::ThreadRng);

/// Relies on rand::thread_rng: returns a handle to the thread-local random
/// number generator. Nothing is assumed about the values it produces.
#[verifier::external_body]
fn fresh_rng() -> rand::rngs::ThreadRng {
    rand::thread_rng()
}

/// Relies on rand::seq::SliceRandom::shuffle for slices: a Fisher-Yates
/// shuffle that permutes the elements in place by swaps, so whatever order
/// comes out, the multiset of elements is unchanged.
#[verifier::external_body]
fn shuffle_cards(cards: &mut Vec<Card>, rng: &mut rand::rngs::ThreadRng)
    ensures
        final(cards)@.to_multiset() == old(cards)@.to_multiset(),
        final(cards)@.len() == old(cards)@.len(),
{
    cards.shuffle(rng);
}

/// An ordered pile of cards: `num_decks` copies of the thirteen ranks in a
/// uniformly random order.
#[derive(Debug)]
pub struct Deck {
    pub cards: Vec<Card>,
}

impl Deck {
    /// Builds a shoe of `13 * num_decks` cards and shuffles it. The shuffle
    /// permutes but never drops or duplicates ranks.
    pub fn new(num_decks: usize) -> (deck: Deck)
        requires
            num_decks <= usize::MAX / 13,
        ensures
            deck.cards@.len() == 13 * num_decks,
            deck.cards@.to_multiset() == shoe(num_decks as nat).to_multiset(),
            forall|c: Card| deck.cards@.to_multiset().count(c) == num_decks,
    {
        let mut cards: Vec<Card> = Vec::new();
        let mut i: usize = 0;
        while i < num_decks
            invariant
                i <= num_decks,
                cards@ == shoe(i as nat),
                cards@.len() == 13 * i,
            decreases num_decks - i,
        {
            cards.push(Card::A);
            cards.push(Card::Two);
            cards.push(Card::Three);
            cards.push(Card::Four);
            cards.push(Card::Five);
            cards.push(Card::Six);
            cards.push(Card::Seven);
            cards.push(Card::Eight);
            cards.push(Card::Nine);
            cards.push(Card::Ten);
            cards.push(Card::J);
            cards.push(Card::Q);
            cards.push(Card::K);
            proof {
                assert(cards@ =~= shoe((i + 1) as nat));
            }
            i = i + 1;
        }
        let mut rng = fresh_rng();
        shuffle_cards(&mut cards, &mut rng);
        proof {
            assert forall|c: Card| cards@.to_multiset().count(c) == num_decks by {
                lemma_shoe_count(num_decks as nat, c);
            }
        }
        Deck { cards }
    }

    /// Re-shuffles the deck in place: a permutation of the same cards.
    pub fn shuffle(&mut self)
        ensures
            final(self).cards@.to_multiset() == old(self).cards@.to_multiset(),
            final(self).cards@.len() == old(self).cards@.len(),
    {
        let mut rng = fresh_rng();
        shuffle_cards(&mut self.cards, &mut rng);
    }
}

/// Each rank occurs exactly once among the thirteen ranks of one deck.
pub proof fn lemma_rank_list_count(c: Card)
    ensures
        rank_list().to_multiset().count(c) == 1,
{
    broadcast use vstd::seq_lib::group_to_multiset_ensures;
    broadcast use vstd::multiset::group_multiset_axioms;

}

/// An `n`-deck shoe holds exactly `n` copies of every rank: construction
/// concatenates whole decks and the shuffle preserves the multiset, so no
/// rank is ever dropped or duplicated.
pub proof fn lemma_shoe_count(n: nat, c: Card)
    ensures
        shoe(n).to_multiset().count(c) == n,
    decreases n,
{
    broadcast use vstd::multiset::group_multiset_axioms;

    broadcast use vstd::seq_lib::group_to_multiset_ensures;

    if n == 0 {
        assert(!shoe(0).contains(c));
    } else {
        lemma_shoe_count((n - 1) as nat, c);
        lemma_multiset_commutative(shoe((n - 1) as nat), rank_list());
        lemma_rank_list_count(c);
    }
}

/// An endless supply of cards: a fixed shuffled buffer read through a cursor
/// that advances by exactly one position per draw and wraps around once the
/// buffer is exhausted, so a draw never fails.
#[derive(Debug)]
pub struct CardSource {
    pub cards: Vec<Card>,
    pub cursor: usize,
}

impl CardSource {
    pub open spec fn wf(self) -> bool {
        self.cards@.len() > 0 && self.cursor < self.cards@.len()
    }

    /// Starts a source at the top of a deck.
    pub fn new(deck: Deck) -> (s: CardSource)
        requires
            deck.cards@.len() > 0,
        ensures
            s.wf(),
            s.cards@ == deck.cards@,
            s.cursor == 0,
    {
        CardSource { cards: deck.cards, cursor: 0 }
    }

    /// Hands out the card under the cursor and advances the cursor one
    /// position, wrapping around at the end of the buffer.
    pub fn draw(&mut self) -> (c: Card)
        requires
            old(self).wf(),
        ensures
            final(self).wf(),
            final(self).cards@ == old(self).cards@,
            c == old(self).cards@[old(self).cursor as int],
            final(self).cursor as int == bump(old(self).cursor as int, old(self).cards@.len() as int),
            2 <= card_value(c) <= 11,
    {
        let n = self.cards.len();
        let c = self.cards[self.cursor];
        self.cursor = (self.cursor + 1) % n;
        proof {
            crate::card::lemma_card_value_bounds(c);
        }
        c
    }
}

} // verus!
