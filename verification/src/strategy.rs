//! The player's fixed decision table ("basic strategy").
//!
//! The table maps a hand signature — either a hard total with the dealer's
//! up-card value, or a pair value with the dealer's up-card value — to a
//! recommended action. It is built once, read-only afterwards, and complete
//! over every reachable signature; a missing entry is a configuration defect
//! reported through `StrategyError`, never a per-game condition.

use vstd::prelude::*;

verus! {

/// A move the player can make in the game.
#[derive(Debug, Clone, Copy, PartialEq, Eq, Structural)]
pub enum Move {
    Double,
    Stand,
    Hit,
    Split,
}

/// The kinds of players in the game.
#[derive(Debug, Clone, Copy, PartialEq, Eq, Structural)]
pub enum Agent {
    Dealer,
    Player,
}

/// A fatal configuration defect: the strategy table holds no entry for the
/// signature that was looked up. `pair` tells which table was consulted,
/// `player` is the hand total (or the pair value), `dealer` the up-card value.
#[derive(Debug, Clone, Copy, PartialEq, Eq, Structural)]
pub struct StrategyError {
    pub pair: bool,
    pub player: u8,
    pub dealer: u8,
}

/// Hard totals run from 5 to 17: below 5 the player always hits and above 17
/// always stands, so the table is never consulted there.
pub open spec fn hard_domain(total: int, up: int) -> bool {
    5 <= total <= 17 && 2 <= up <= 11
}

/// Pair values run from 2 (a pair of twos) to 11 (a pair of aces).
pub open spec fn pair_domain(value: int, up: int) -> bool {
    2 <= value <= 11 && 2 <= up <= 11
}

/// Index of a hard-total entry: ten dealer columns per total row.
pub open spec fn hard_slot(total: int, up: int) -> int {
    (total - 5) * 10 + (up - 2)
}

/// Index of a pair entry: ten dealer columns per pair-value row.
pub open spec fn pair_slot(value: int, up: int) -> int {
    (value - 2) * 10 + (up - 2)
}

/// The number of hard-total entries a complete table holds.
pub const HARD_ENTRIES: usize = 130;

/// The number of pair entries a complete table holds.
pub const PAIR_ENTRIES: usize = 100;

/// An immutable decision table. `hard` is indexed by `hard_slot`, `pairs` by
/// `pair_slot`. A well-formed table has an entry in every slot of both.
#[derive(Debug)]
pub struct StrategyTable {
    pub hard: Vec<Move>,
    pub pairs: Vec<Move>,
}

impl StrategyTable {
    /// Completeness: every reachable signature has an entry.
    pub open spec fn wf(self) -> bool {
        self.hard@.len() == HARD_ENTRIES && self.pairs@.len() == PAIR_ENTRIES
    }

    /// What a hard-total lookup returns: the stored entry, or nothing when
    /// the signature is out of domain or the table is missing its slot.
    pub open spec fn lookup_spec(self, total: int, up: int) -> Option<Move> {
        if hard_domain(total, up) && hard_slot(total, up) < self.hard@.len() {
            Some(self.hard@[hard_slot(total, up)])
        } else {
            None
        }
    }

    /// What a pair lookup returns, in the same way.
    pub open spec fn lookup_pair_spec(self, value: int, up: int) -> Option<Move> {
        if pair_domain(value, up) && pair_slot(value, up) < self.pairs@.len() {
            Some(self.pairs@[pair_slot(value, up)])
        } else {
            None
        }
    }

    /// Looks up the action for a hard total against a dealer up-card. An
    /// absent entry is the fatal configuration defect, reported with the
    /// offending signature.
    pub fn lookup(&self, total: u8, up: u8) -> (r: Result<Move, StrategyError>)
        ensures
            (match self.lookup_spec(total as int, up as int) {
                Some(m) => r == Ok::<Move, StrategyError>(m),
                None => r == Err::<Move, StrategyError>(
                    StrategyError { pair: false, player: total, dealer: up },
                ),
            }),
    {
        if 5 <= total && total <= 17 && 2 <= up && up <= 11 {
            let slot: usize = (total as usize - 5) * 10 + (up as usize - 2);
            if slot < self.hard.len() {
                return Ok(self.hard[slot]);
            }
        }
        Err(StrategyError { pair: false, player: total, dealer: up })
    }

    /// Looks up the action for a pair of cards worth `value` points each
    /// against a dealer up-card.
    pub fn lookup_pair(&self, value: u8, up: u8) -> (r: Result<Move, StrategyError>)
        ensures
            (match self.lookup_pair_spec(value as int, up as int) {
                Some(m) => r == Ok::<Move, StrategyError>(m),
                None => r == Err::<Move, StrategyError>(
                    StrategyError { pair: true, player: value, dealer: up },
                ),
            }),
    {
        if 2 <= value && value <= 11 && 2 <= up && up <= 11 {
            let slot: usize = (value as usize - 2) * 10 + (up as usize - 2);
            if slot < self.pairs.len() {
                return Ok(self.pairs[slot]);
            }
        }
        Err(StrategyError { pair: true, player: value, dealer: up })
    }
}

/// The basic-strategy action for a hard total (aces fixed at 11, so there are
/// no soft totals): double on 9 against weak dealer cards, on 10 and 11
/// against most, stand on stiff totals against dealer 2-6 (4-6 for 12), and
/// on 17 always; otherwise hit.
pub open spec fn basic_hard(total: int, up: int) -> Move {
    if total <= 8 {
        Move::Hit
    } else if total == 9 {
        if 3 <= up <= 6 {
            Move::Double
        } else {
            Move::Hit
        }
    } else if total == 10 {
        if up <= 9 {
            Move::Double
        } else {
            Move::Hit
        }
    } else if total == 11 {
        if up <= 10 {
            Move::Double
        } else {
            Move::Hit
        }
    } else if total == 12 {
        if 4 <= up <= 6 {
            Move::Stand
        } else {
            Move::Hit
        }
    } else if total <= 16 {
        if up <= 6 {
            Move::Stand
        } else {
            Move::Hit
        }
    } else {
        Move::Stand
    }
}

/// The basic-strategy action for a pair: always split aces and eights, never
/// split tens or fives (a pair of fives plays as a hard ten), split the low
/// pairs and sevens against dealer 2-7, sixes against 2-6, fours only against
/// 5-6, and nines against everything but 7, 10 and ace.
pub open spec fn basic_pair(value: int, up: int) -> Move {
    if value == 2 || value == 3 {
        if up <= 7 {
            Move::Split
        } else {
            Move::Hit
        }
    } else if value == 4 {
        if 5 <= up <= 6 {
            Move::Split
        } else {
            Move::Hit
        }
    } else if value == 5 {
        if up <= 9 {
            Move::Double
        } else {
            Move::Hit
        }
    } else if value == 6 {
        if up <= 6 {
            Move::Split
        } else {
            Move::Hit
        }
    } else if value == 7 {
        if up <= 7 {
            Move::Split
        } else {
            Move::Hit
        }
    } else if value == 8 {
        Move::Split
    } else if value == 9 {
        if up == 7 || up >= 10 {
            Move::Stand
        } else {
            Move::Split
        }
    } else if value == 10 {
        Move::Stand
    } else {
        Move::Split
    }
}

/// Executable mirror of `basic_hard`.
fn basic_hard_move(total: u8, up: u8) -> (m: Move)
    ensures
        m == basic_hard(total as int, up as int),
{
    if total <= 8 {
        Move::Hit
    } else if total == 9 {
        if 3 <= up && up <= 6 {
            Move::Double
        } else {
            Move::Hit
        }
    } else if total == 10 {
        if up <= 9 {
            Move::Double
        } else {
            Move::Hit
        }
    } else if total == 11 {
        if up <= 10 {
            Move::Double
        } else {
            Move::Hit
        }
    } else if total == 12 {
        if 4 <= up && up <= 6 {
            Move::Stand
        } else {
            Move::Hit
        }
    } else if total <= 16 {
        if up <= 6 {
            Move::Stand
        } else {
            Move::Hit
        }
    } else {
        Move::Stand
    }
}

/// Executable mirror of `basic_pair`.
fn basic_pair_move(value: u8, up: u8) -> (m: Move)
    ensures
        m == basic_pair(value as int, up as int),
{
    if value == 2 || value == 3 {
        if up <= 7 {
            Move::Split
        } else {
            Move::Hit
        }
    } else if value == 4 {
        if 5 <= up && up <= 6 {
            Move::Split
        } else {
            Move::Hit
        }
    } else if value == 5 {
        if up <= 9 {
            Move::Double
        } else {
            Move::Hit
        }
    } else if value == 6 {
        if up <= 6 {
            Move::Split
        } else {
            Move::Hit
        }
    } else if value == 7 {
        if up <= 7 {
            Move::Split
        } else {
            Move::Hit
        }
    } else if value == 8 {
        Move::Split
    } else if value == 9 {
        if up == 7 || up >= 10 {
            Move::Stand
        } else {
            Move::Split
        }
    } else if value == 10 {
        Move::Stand
    } else {
        Move::Split
    }
}

impl StrategyTable {
    /// Builds the complete basic-strategy table: every hard total from 5 to
    /// 17 and every pair value from 2 to 11 has its entry, against every
    /// dealer up-card value from 2 to 11.
    pub fn basic() -> (t: StrategyTable)
        ensures
            t.wf(),
            forall|total: int, up: int|
                hard_domain(total, up) ==> t.lookup_spec(total, up) == Some(basic_hard(total, up)),
            forall|value: int, up: int|
                pair_domain(value, up)
                    ==> t.lookup_pair_spec(value, up) == Some(basic_pair(value, up)),
    {
        let mut hard: Vec<Move> = Vec::new();
        let mut slot: usize = 0;
        while slot < HARD_ENTRIES
            invariant
                slot <= HARD_ENTRIES,
                hard@.len() == slot,
                forall|j: int|
                    0 <= j < slot ==> hard@[j] == basic_hard(5 + j / 10, 2 + j % 10),
            decreases HARD_ENTRIES - slot,
        {
            let total: u8 = 5 + (slot / 10) as u8;
            let up: u8 = 2 + (slot % 10) as u8;
            let m = basic_hard_move(total, up);
            hard.push(m);
            slot = slot + 1;
        }
        let mut pairs: Vec<Move> = Vec::new();
        let mut pslot: usize = 0;
        while pslot < PAIR_ENTRIES
            invariant
                pslot <= PAIR_ENTRIES,
                pairs@.len() == pslot,
                forall|j: int|
                    0 <= j < pslot ==> pairs@[j] == basic_pair(2 + j / 10, 2 + j % 10),
            decreases PAIR_ENTRIES - pslot,
        {
            let value: u8 = 2 + (pslot / 10) as u8;
            let up: u8 = 2 + (pslot % 10) as u8;
            let m = basic_pair_move(value, up);
            pairs.push(m);
            pslot = pslot + 1;
        }
        let t = StrategyTable { hard, pairs };
        proof {
            assert forall|total: int, up: int| hard_domain(total, up)
                implies t.lookup_spec(total, up) == Some(basic_hard(total, up)) by {
                let j = hard_slot(total, up);
                assert(0 <= j < HARD_ENTRIES);
                assert(j / 10 == total - 5 && j % 10 == up - 2) by (nonlinear_arith)
                    requires
                        5 <= total <= 17,
                        2 <= up <= 11,
                        j == (total - 5) * 10 + (up - 2),
                ;
            }
            assert forall|value: int, up: int| pair_domain(value, up)
                implies t.lookup_pair_spec(value, up) == Some(basic_pair(value, up)) by {
                let j = pair_slot(value, up);
                assert(0 <= j < PAIR_ENTRIES);
                assert(j / 10 == value - 2 && j % 10 == up - 2) by (nonlinear_arith)
                    requires
                        2 <= value <= 11,
                        2 <= up <= 11,
                        j == (value - 2) * 10 + (up - 2),
                ;
            }
        }
        t
    }
}

} // verus!
