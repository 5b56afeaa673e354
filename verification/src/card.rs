//! Card ranks and their point values.

use vstd::prelude::*;

verus! {

/// One of the thirteen card ranks. Suits are irrelevant to blackjack scoring.
#[derive(Debug, PartialEq, Eq, Clone, Copy, Structural)]
pub enum Card {
    Two,
    Three,
    Four,
    Five,
    Six,
    Seven,
    Eight,
    Nine,
    Ten,
    J,
    Q,
    K,
    A,
}

/// The point value of a rank: numeric ranks count as their number, face
/// cards as 10, and an ace always as 11 (this engine never re-values an ace
/// to 1 to avoid a bust).
pub open spec fn card_value(c: Card) -> int {
    match c {
        Card::Two => 2,
        Card::Three => 3,
        Card::Four => 4,
        Card::Five => 5,
        Card::Six => 6,
        Card::Seven => 7,
        Card::Eight => 8,
        Card::Nine => 9,
        Card::Ten => 10,
        Card::J => 10,
        Card::Q => 10,
        Card::K => 10,
        Card::A => 11,
    }
}

impl Card {
    /// Executable point value of this rank.
    pub fn value(&self) -> (v: u8)
        ensures
            v as int == card_value(*self),
    {
        match self {
            Card::Two => 2,
            Card::Three => 3,
            Card::Four => 4,
            Card::Five => 5,
            Card::Six => 6,
            Card::Seven => 7,
            Card::Eight => 8,
            Card::Nine => 9,
            Card::Ten => 10,
            Card::J => 10,
            Card::Q => 10,
            Card::K => 10,
            Card::A => 11,
        }
    }
}

/// Every rank is worth between 2 and 11 points.
pub proof fn lemma_card_value_bounds(c: Card)
    ensures
        2 <= card_value(c) <= 11,
{
}

} // verus!
