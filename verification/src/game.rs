//! The game state machine: dealing, the player policy, the dealer's
//! reveal-then-hit sequence, and the termination rule.
//!
//! `run` is the mathematical description of one round played to its terminal
//! state; `Game::start` is its executable twin and is proved to compute
//! exactly `run`'s answer.

use vstd::prelude::*;

use crate::card::{Card, card_value, lemma_card_value_bounds};
use crate::deck::{CardSource, bump};
use crate::strategy::{Agent, Move, StrategyError, StrategyTable};

verus! {

/// The total of a hand: the sum of its members' point values.
pub open spec fn hand_total(s: Seq<Card>) -> int
    decreases s.len(),
{
    if s.len() == 0 {
        0
    } else {
        hand_total(s.drop_last()) + card_value(s.last())
    }
}

/// A hand total is never negative.
pub proof fn lemma_hand_total_nonneg(s: Seq<Card>)
    ensures
        hand_total(s) >= 0,
    decreases s.len(),
{
    if s.len() > 0 {
        lemma_hand_total_nonneg(s.drop_last());
        lemma_card_value_bounds(s.last());
    }
}

/// Appending a card raises the total by exactly that card's value: the
/// running total a game keeps stays consistent with recomputing from scratch.
pub proof fn lemma_hand_total_push(s: Seq<Card>, c: Card)
    ensures
        hand_total(s.push(c)) == hand_total(s) + card_value(c),
{
    assert(s.push(c).drop_last() =~= s);
}

/// A prefix of a hand never totals more than the whole hand.
pub proof fn lemma_hand_total_prefix(s: Seq<Card>, i: int)
    requires
        0 <= i <= s.len(),
    ensures
        hand_total(s.take(i)) <= hand_total(s),
    decreases s.len() - i,
{
    if i == s.len() {
        assert(s.take(i) =~= s);
    } else {
        lemma_hand_total_prefix(s, i + 1);
        assert(s.take(i + 1).drop_last() =~= s.take(i));
        assert(s.take(i + 1).last() == s[i]);
        lemma_card_value_bounds(s[i]);
    }
}

/// The total of a two-card hand is the sum of both card values.
pub proof fn lemma_hand_total_two(s: Seq<Card>)
    requires
        s.len() == 2,
    ensures
        hand_total(s) == card_value(s[0]) + card_value(s[1]),
{
    assert(s.drop_last().drop_last() =~= Seq::empty());
    assert(s.drop_last().last() == s[0]);
    assert(s.last() == s[1]);
    assert(hand_total(s.drop_last().drop_last()) == 0);
    assert(hand_total(s.drop_last()) == hand_total(s.drop_last().drop_last()) + card_value(
        s.drop_last().last(),
    ));
}

/// Gets the sum of cards in a hand.
pub fn hand_sum(hand: &Vec<Card>) -> (sum: u8)
    requires
        hand_total(hand@) <= u8::MAX,
    ensures
        sum as int == hand_total(hand@),
{
    let mut sum: u8 = 0;
    let mut i: usize = 0;
    while i < hand.len()
        invariant
            i <= hand@.len(),
            hand_total(hand@) <= u8::MAX,
            sum as int == hand_total(hand@.take(i as int)),
        decreases hand@.len() - i,
    {
        proof {
            lemma_hand_total_prefix(hand@, i + 1);
            lemma_hand_total_nonneg(hand@.take(i as int));
            assert(hand@.take(i + 1).drop_last() =~= hand@.take(i as int));
            assert(hand@.take(i + 1).last() == hand@[i as int]);
            lemma_card_value_bounds(hand@[i as int]);
        }
        sum = sum + hand[i].value();
        i = i + 1;
    }
    proof {
        assert(hand@.take(hand@.len() as int) =~= hand@);
    }
    sum
}

/// The termination rule, evaluated in this strict order: equal totals tie;
/// a set "dealer beats player" flag gives the dealer the round; a player 21
/// wins; a dealer 21 wins for the dealer; a player bust loses; a dealer bust
/// wins for the player; otherwise the round goes on.
pub open spec fn outcome(player_total: int, dealer_total: int, dealer_beats_player: bool) -> (
    bool,
    Option<Agent>,
) {
    if player_total == dealer_total {
        (true, None::<Agent>)
    } else if dealer_beats_player {
        (true, Some(Agent::Dealer))
    } else if player_total == 21 {
        (true, Some(Agent::Player))
    } else if dealer_total == 21 {
        (true, Some(Agent::Dealer))
    } else if player_total > 21 {
        (true, Some(Agent::Dealer))
    } else if dealer_total > 21 {
        (true, Some(Agent::Player))
    } else {
        (false, None::<Agent>)
    }
}

/// A two-card hand whose cards are worth the same number of points: the only
/// shape the pair table is consulted for.
pub open spec fn is_value_pair(hand: Seq<Card>) -> bool {
    hand.len() == 2 && card_value(hand[0]) == card_value(hand[1])
}

/// The player policy: an equal-value two-card hand goes to the pair table;
/// otherwise a total under 5 forces a hit and a total over 17 forces a
/// stand; anything else goes to the hard-total table. A missing table entry
/// is the fatal configuration defect.
pub open spec fn act_spec(table: StrategyTable, hand: Seq<Card>, up: int) -> Result<
    Move,
    StrategyError,
> {
    if is_value_pair(hand) {
        match table.lookup_pair_spec(card_value(hand[0]), up) {
            Some(m) => Ok(m),
            None => Err(
                StrategyError { pair: true, player: card_value(hand[0]) as u8, dealer: up as u8 },
            ),
        }
    } else if hand_total(hand) < 5 {
        Ok(Move::Hit)
    } else if hand_total(hand) > 17 {
        Ok(Move::Stand)
    } else {
        match table.lookup_spec(hand_total(hand), up) {
            Some(m) => Ok(m),
            None => Err(
                StrategyError { pair: false, player: hand_total(hand) as u8, dealer: up as u8 },
            ),
        }
    }
}

/// A game in flight, as the mathematics sees it: the executable fields plus
/// the turn-loop bookkeeping (`player_done`, `dealer_revealed`), the card
/// source's cursor, and the configuration defect, if one was hit.
#[verifier::ext_equal]
pub ghost struct GameState {
    pub dealer_hand: Seq<Card>,
    pub dealer_total: int,
    pub player_moves: Seq<Move>,
    pub hand0: Seq<Card>,
    pub hand1: Seq<Card>,
    pub player_total: int,
    pub dealer_beats_player: bool,
    pub winner: Option<Agent>,
    pub player_done: bool,
    pub dealer_revealed: bool,
    pub cursor: int,
    pub err: Option<StrategyError>,
}

/// A game instance: one dealer hand, one or two player hands, the running
/// totals, the ordered log of player moves, and the terminal verdict.
///
/// `dealer_total` counts only the up-card until the hole card is revealed.
/// `player_total` tracks the first hand; after a split it additionally
/// absorbs the card dealt to the second hand, and the termination rule keeps
/// comparing that single combined total against the dealer — a deliberate
/// conservative treatment, since scoring two split hands independently is an
/// open question of this engine's rules.
#[derive(Debug)]
pub struct Game {
    pub dealer_hand: Vec<Card>,
    pub dealer_total: u8,
    pub player_moves: Vec<Move>,
    pub player_hands: (Vec<Card>, Vec<Card>),
    pub player_total: u8,
    pub dealer_beats_player: bool,
    pub winner: Option<Agent>,
}

/// The mathematical state of a game whose turn loop is at `player_done` /
/// `dealer_revealed`, drawing from a source at `cursor`.
pub open spec fn abs(g: Game, player_done: bool, dealer_revealed: bool, cursor: int) -> GameState {
    GameState {
        dealer_hand: g.dealer_hand@,
        dealer_total: g.dealer_total as int,
        player_moves: g.player_moves@,
        hand0: g.player_hands.0@,
        hand1: g.player_hands.1@,
        player_total: g.player_total as int,
        dealer_beats_player: g.dealer_beats_player,
        winner: g.winner,
        player_done: player_done,
        dealer_revealed: dealer_revealed,
        cursor: cursor,
        err: None::<StrategyError>,
    }
}

/// The mathematical state of a freshly dealt round: two dealer cards and two
/// player cards taken in order from `cards` starting at `cursor`, the
/// dealer's total counting only the up-card.
pub open spec fn dealt_state(cards: Seq<Card>, cursor: int) -> GameState {
    let n = cards.len() as int;
    let k1 = bump(cursor, n);
    let k2 = bump(k1, n);
    let k3 = bump(k2, n);
    GameState {
        dealer_hand: seq![cards[cursor], cards[k1]],
        dealer_total: card_value(cards[cursor]),
        player_moves: Seq::empty(),
        hand0: seq![cards[k2], cards[k3]],
        hand1: Seq::empty(),
        player_total: hand_total(seq![cards[k2], cards[k3]]),
        dealer_beats_player: false,
        winner: None::<Agent>,
        player_done: false,
        dealer_revealed: false,
        cursor: bump(k3, n),
        err: None::<StrategyError>,
    }
}

/// Plays a game to its end: while the round is not terminal, the player acts
/// by policy (a hit draws one card; a double draws one card and ends the
/// player's turn; a split moves one paired card to a second hand, draws one
/// card for each hand, and ends the turn; a stand ends the turn); then the
/// dealer reveals the hole card and draws until the round terminates,
/// flagging whenever a total of at most 21 strictly beats the player. The
/// first terminal check that matches freezes the state and names the winner.
pub open spec fn run(table: StrategyTable, cards: Seq<Card>, s: GameState) -> GameState
    decreases
            (if s.player_done {
                0int
            } else {
                1int
            }),
            44 - s.player_total,
            (if s.dealer_revealed {
                0int
            } else {
                1int
            }),
            44 - s.dealer_total,
{
    let o = outcome(s.player_total, s.dealer_total, s.dealer_beats_player);
    if o.0 {
        GameState { winner: o.1, ..s }
    } else if !s.player_done {
        match act_spec(table, s.hand0, card_value(s.dealer_hand[0])) {
            Err(e) => GameState { err: Some(e), ..s },
            Ok(m) => match m {
                Move::Hit => {
                    let c = cards[s.cursor];
                    run(
                        table,
                        cards,
                        GameState {
                            hand0: s.hand0.push(c),
                            player_total: s.player_total + card_value(c),
                            player_moves: s.player_moves.push(Move::Hit),
                            cursor: bump(s.cursor, cards.len() as int),
                            ..s
                        },
                    )
                },
                Move::Double => {
                    let c = cards[s.cursor];
                    run(
                        table,
                        cards,
                        GameState {
                            hand0: s.hand0.push(c),
                            player_total: s.player_total + card_value(c),
                            player_moves: s.player_moves.push(Move::Double),
                            player_done: true,
                            cursor: bump(s.cursor, cards.len() as int),
                            ..s
                        },
                    )
                },
                Move::Stand => run(
                    table,
                    cards,
                    GameState {
                        player_moves: s.player_moves.push(Move::Stand),
                        player_done: true,
                        ..s
                    },
                ),
                Move::Split => {
                    let splitter = s.hand0.last();
                    let c1 = cards[s.cursor];
                    let k1 = bump(s.cursor, cards.len() as int);
                    let c2 = cards[k1];
                    run(
                        table,
                        cards,
                        GameState {
                            hand0: s.hand0.drop_last().push(c1),
                            hand1: s.hand1.push(splitter).push(c2),
                            player_total: s.player_total + card_value(c2),
                            player_moves: s.player_moves.push(Move::Split),
                            player_done: true,
                            cursor: bump(k1, cards.len() as int),
                            ..s
                        },
                    )
                },
            },
        }
    } else if !s.dealer_revealed {
        run(
            table,
            cards,
            GameState {
                dealer_total: s.dealer_total + card_value(s.dealer_hand.last()),
                dealer_revealed: true,
                ..s
            },
        )
    } else {
        let c = cards[s.cursor];
        let dt = s.dealer_total + card_value(c);
        run(
            table,
            cards,
            GameState {
                dealer_hand: s.dealer_hand.push(c),
                dealer_total: dt,
                dealer_beats_player: if dt <= 21 && dt > s.player_total {
                    true
                } else {
                    s.dealer_beats_player
                },
                cursor: bump(s.cursor, cards.len() as int),
                ..s
            },
        )
    }
}

/// Takes two cards from the card source.
pub fn take_two(source: &mut CardSource) -> (r: Vec<Card>)
    requires
        old(source).wf(),
    ensures
        final(source).wf(),
        final(source).cards@ == old(source).cards@,
        r@.len() == 2,
        r@[0] == old(source).cards@[old(source).cursor as int],
        r@[1] == old(source).cards@[bump(
            old(source).cursor as int,
            old(source).cards@.len() as int,
        )],
        final(source).cursor as int == bump(
            bump(old(source).cursor as int, old(source).cards@.len() as int),
            old(source).cards@.len() as int,
        ),
{
    let a = source.draw();
    let b = source.draw();
    let mut r: Vec<Card> = Vec::new();
    r.push(a);
    r.push(b);
    r
}

impl Game {
    /// Deals a fresh round: two cards to the dealer, two to the player. The
    /// dealer's tracked total counts only the up-card (the first dealer
    /// card); the player's total counts both player cards.
    pub fn new(source: &mut CardSource) -> (g: Game)
        requires
            old(source).wf(),
        ensures
            final(source).wf(),
            final(source).cards@ == old(source).cards@,
            ({
                let cards = old(source).cards@;
                let n = cards.len() as int;
                let k0 = old(source).cursor as int;
                let k1 = bump(k0, n);
                let k2 = bump(k1, n);
                let k3 = bump(k2, n);
                &&& g.dealer_hand@ == seq![cards[k0], cards[k1]]
                &&& g.player_hands.0@ == seq![cards[k2], cards[k3]]
                &&& g.player_hands.1@.len() == 0
                &&& g.dealer_total as int == card_value(cards[k0])
                &&& g.player_total as int == hand_total(g.player_hands.0@)
                &&& g.player_moves@.len() == 0
                &&& g.dealer_beats_player == false
                &&& g.winner is None
                &&& final(source).cursor as int == bump(k3, n)
            }),
    {
        let dealer_hand = take_two(source);
        let player_hand = take_two(source);
        let dealer_total = dealer_hand[0].value();
        proof {
            lemma_hand_total_two(player_hand@);
            lemma_card_value_bounds(player_hand@[0]);
            lemma_card_value_bounds(player_hand@[1]);
            assert(dealer_hand@ =~= seq![dealer_hand@[0], dealer_hand@[1]]);
            assert(player_hand@ =~= seq![player_hand@[0], player_hand@[1]]);
        }
        let player_total = hand_sum(&player_hand);
        Game {
            dealer_hand,
            dealer_total,
            player_moves: Vec::new(),
            player_hands: (player_hand, Vec::new()),
            player_total,
            dealer_beats_player: false,
            winner: None,
        }
    }

    /// Draws the next card from the shared source.
    pub fn next_card(&self, source: &mut CardSource) -> (c: Card)
        requires
            old(source).wf(),
        ensures
            final(source).wf(),
            final(source).cards@ == old(source).cards@,
            c == old(source).cards@[old(source).cursor as int],
            final(source).cursor as int == bump(
                old(source).cursor as int,
                old(source).cards@.len() as int,
            ),
    {
        source.draw()
    }

    /// The player's next move under the policy, looked up against the
    /// dealer's up-card. Fails only on a missing table entry, reporting the
    /// offending signature.
    pub fn act(&self, table: &StrategyTable) -> (r: Result<Move, StrategyError>)
        requires
            self.dealer_hand@.len() >= 1,
            hand_total(self.player_hands.0@) <= u8::MAX,
        ensures
            r == act_spec(*table, self.player_hands.0@, card_value(self.dealer_hand@[0])),
    {
        let dealer_up = self.dealer_hand[0].value();
        if self.player_hands.0.len() == 2 {
            let v0 = self.player_hands.0[0].value();
            let v1 = self.player_hands.0[1].value();
            if v0 == v1 {
                return table.lookup_pair(v0, dealer_up);
            }
        }
        let player_sum = hand_sum(&self.player_hands.0);
        if player_sum < 5 {
            return Ok(Move::Hit);
        }
        if player_sum > 17 {
            return Ok(Move::Stand);
        }
        table.lookup(player_sum, dealer_up)
    }

    /// Evaluates the termination rule on the current state: whether the
    /// round is over and, if so, who won (`None` is a tie).
    pub fn game_ended(&self) -> (r: (bool, Option<Agent>))
        ensures
            r == outcome(self.player_total as int, self.dealer_total as int, self.dealer_beats_player),
    {
        if self.player_total == self.dealer_total {
            return (true, None);
        }
        if self.dealer_beats_player {
            return (true, Some(Agent::Dealer));
        }
        if self.player_total == 21 {
            return (true, Some(Agent::Player));
        }
        if self.dealer_total == 21 {
            return (true, Some(Agent::Dealer));
        }
        if self.player_total > 21 {
            return (true, Some(Agent::Dealer));
        }
        if self.dealer_total > 21 {
            return (true, Some(Agent::Player));
        }
        (false, None)
    }

    /// Plays the round to its terminal state, drawing from `source` and
    /// consulting `table`: the executable twin of `run`. Returns the
    /// configuration defect if a policy lookup found no entry; the state
    /// then freezes at the failed lookup.
    #[verifier::loop_isolation(false)]
    pub fn start(&mut self, source: &mut CardSource, table: &StrategyTable) -> (r: Result<
        (),
        StrategyError,
    >)
        requires
            old(source).wf(),
            old(self).dealer_hand@.len() >= 1,
            old(self).player_hands.1@.len() == 0,
            old(self).player_total as int == hand_total(old(self).player_hands.0@),
        ensures
            final(source).wf(),
            final(source).cards@ == old(source).cards@,
            ({
                let g = run(
                    *table,
                    old(source).cards@,
                    abs(*old(self), false, false, old(source).cursor as int),
                );
                &&& final(self).dealer_hand@ == g.dealer_hand
                &&& final(self).dealer_total as int == g.dealer_total
                &&& final(self).player_moves@ == g.player_moves
                &&& final(self).player_hands.0@ == g.hand0
                &&& final(self).player_hands.1@ == g.hand1
                &&& final(self).player_total as int == g.player_total
                &&& final(self).dealer_beats_player == g.dealer_beats_player
                &&& final(self).winner == g.winner
                &&& final(source).cursor as int == g.cursor
                &&& (match r {
                    Ok(()) => g.err is None,
                    Err(e) => g.err == Some(e),
                })
            }),
            r is Ok ==> ({
                let o = outcome(
                    final(self).player_total as int,
                    final(self).dealer_total as int,
                    final(self).dealer_beats_player,
                );
                o.0 && final(self).winner == o.1
            }),
    {
        let ghost cards = old(source).cards@;
        let ghost s0 = abs(*old(self), false, false, old(source).cursor as int);
        let mut player_done = false;
        let mut dealer_revealed = false;
        proof {
            lemma_run_terminal(*table, cards, s0);
        }
        loop
            invariant
                source.wf(),
                source.cards@ == cards,
                self.dealer_hand@.len() >= 1,
                !player_done ==> self.player_hands.1@.len() == 0,
                !player_done ==> self.player_total as int == hand_total(self.player_hands.0@),
                self.winner == old(self).winner,
                run(*table, cards, abs(*self, player_done, dealer_revealed, source.cursor as int))
                    == run(*table, cards, s0),
            decreases
                    (if player_done {
                        0int
                    } else {
                        1int
                    }),
                    44 - self.player_total as int,
                    (if dealer_revealed {
                        0int
                    } else {
                        1int
                    }),
                    44 - self.dealer_total as int,
        {
            let ghost cur = abs(*self, player_done, dealer_revealed, source.cursor as int);
            let (ended, who) = self.game_ended();
            if ended {
                self.winner = who;
                proof {
                    assert(run(*table, cards, cur) == (GameState { winner: who, ..cur }));
                    assert(abs(*self, player_done, dealer_revealed, source.cursor as int) =~= (
                    GameState { winner: who, ..cur }));
                }
                return Ok(());
            }
            if !player_done {
                let action = match self.act(table) {
                    Ok(m) => m,
                    Err(e) => {
                        proof {
                            assert(run(*table, cards, cur) == (GameState { err: Some(e), ..cur }));
                        }
                        return Err(e);
                    },
                };
                match action {
                    Move::Hit => {
                        let card = source.draw();
                        self.player_hands.0.push(card);
                        proof {
                            lemma_hand_total_push(cur.hand0, card);
                        }
                        self.player_total = self.player_total + card.value();
                        self.player_moves.push(Move::Hit);
                        proof {
                            assert(abs(
                                *self,
                                player_done,
                                dealer_revealed,
                                source.cursor as int,
                            ) =~= (GameState {
                                hand0: cur.hand0.push(card),
                                player_total: cur.player_total + card_value(card),
                                player_moves: cur.player_moves.push(Move::Hit),
                                cursor: bump(cur.cursor, cards.len() as int),
                                ..cur
                            }));
                        }
                    },
                    Move::Double => {
                        let card = source.draw();
                        self.player_hands.0.push(card);
                        proof {
                            lemma_hand_total_push(cur.hand0, card);
                        }
                        self.player_total = self.player_total + card.value();
                        self.player_moves.push(Move::Double);
                        player_done = true;
                        proof {
                            assert(abs(
                                *self,
                                player_done,
                                dealer_revealed,
                                source.cursor as int,
                            ) =~= (GameState {
                                hand0: cur.hand0.push(card),
                                player_total: cur.player_total + card_value(card),
                                player_moves: cur.player_moves.push(Move::Double),
                                player_done: true,
                                cursor: bump(cur.cursor, cards.len() as int),
                                ..cur
                            }));
                        }
                    },
                    Move::Split => {
                        proof {
                            if self.player_hands.0@.len() == 0 {
                                assert(hand_total(self.player_hands.0@) == 0);
                            }
                        }
                        let splitter = self.player_hands.0.pop().unwrap();
                        self.player_hands.1.push(splitter);
                        let card = source.draw();
                        self.player_hands.0.push(card);
                        let card2 = source.draw();
                        self.player_hands.1.push(card2);
                        self.player_total = self.player_total + card2.value();
                        self.player_moves.push(Move::Split);
                        player_done = true;
                        proof {
                            assert(self.player_hands.0@ =~= cur.hand0.drop_last().push(card));
                            assert(abs(
                                *self,
                                player_done,
                                dealer_revealed,
                                source.cursor as int,
                            ) =~= (GameState {
                                hand0: cur.hand0.drop_last().push(card),
                                hand1: cur.hand1.push(cur.hand0.last()).push(card2),
                                player_total: cur.player_total + card_value(card2),
                                player_moves: cur.player_moves.push(Move::Split),
                                player_done: true,
                                cursor: bump(
                                    bump(cur.cursor, cards.len() as int),
                                    cards.len() as int,
                                ),
                                ..cur
                            }));
                        }
                    },
                    Move::Stand => {
                        self.player_moves.push(Move::Stand);
                        player_done = true;
                        proof {
                            assert(abs(
                                *self,
                                player_done,
                                dealer_revealed,
                                source.cursor as int,
                            ) =~= (GameState {
                                player_moves: cur.player_moves.push(Move::Stand),
                                player_done: true,
                                ..cur
                            }));
                        }
                    },
                }
            } else if !dealer_revealed {
                let hole = self.dealer_hand[self.dealer_hand.len() - 1];
                proof {
                    lemma_card_value_bounds(hole);
                }
                self.dealer_total = self.dealer_total + hole.value();
                dealer_revealed = true;
                proof {
                    assert(abs(*self, player_done, dealer_revealed, source.cursor as int) =~= (
                    GameState {
                        dealer_total: cur.dealer_total + card_value(cur.dealer_hand.last()),
                        dealer_revealed: true,
                        ..cur
                    }));
                }
            } else {
                let card = source.draw();
                self.dealer_hand.push(card);
                self.dealer_total = self.dealer_total + card.value();
                if self.dealer_total <= 21 && self.dealer_total > self.player_total {
                    self.dealer_beats_player = true;
                }
                proof {
                    let dt = cur.dealer_total + card_value(card);
                    assert(abs(*self, player_done, dealer_revealed, source.cursor as int) =~= (
                    GameState {
                        dealer_hand: cur.dealer_hand.push(card),
                        dealer_total: dt,
                        dealer_beats_player: if dt <= 21 && dt > cur.player_total {
                            true
                        } else {
                            cur.dealer_beats_player
                        },
                        cursor: bump(cur.cursor, cards.len() as int),
                        ..cur
                    }));
                }
            }
        }
    }
}

/// Law: a finished run that hit no configuration defect ends in a state the
/// termination rule accepts, with the winner the rule names.
pub proof fn lemma_run_terminal(table: StrategyTable, cards: Seq<Card>, s: GameState)
    requires
        s.err is None,
    ensures
        ({
            let g = run(table, cards, s);
            g.err is None ==> {
                let o = outcome(g.player_total, g.dealer_total, g.dealer_beats_player);
                o.0 && g.winner == o.1
            }
        }),
    decreases
            (if s.player_done {
                0int
            } else {
                1int
            }),
            44 - s.player_total,
            (if s.dealer_revealed {
                0int
            } else {
                1int
            }),
            44 - s.dealer_total,
{
    let o = outcome(s.player_total, s.dealer_total, s.dealer_beats_player);
    if o.0 {
    } else if !s.player_done {
        match act_spec(table, s.hand0, card_value(s.dealer_hand[0])) {
            Err(e) => {},
            Ok(m) => match m {
                Move::Hit => {
                    let c = cards[s.cursor];
                    lemma_run_terminal(
                        table,
                        cards,
                        GameState {
                            hand0: s.hand0.push(c),
                            player_total: s.player_total + card_value(c),
                            player_moves: s.player_moves.push(Move::Hit),
                            cursor: bump(s.cursor, cards.len() as int),
                            ..s
                        },
                    );
                },
                Move::Double => {
                    let c = cards[s.cursor];
                    lemma_run_terminal(
                        table,
                        cards,
                        GameState {
                            hand0: s.hand0.push(c),
                            player_total: s.player_total + card_value(c),
                            player_moves: s.player_moves.push(Move::Double),
                            player_done: true,
                            cursor: bump(s.cursor, cards.len() as int),
                            ..s
                        },
                    );
                },
                Move::Stand => {
                    lemma_run_terminal(
                        table,
                        cards,
                        GameState {
                            player_moves: s.player_moves.push(Move::Stand),
                            player_done: true,
                            ..s
                        },
                    );
                },
                Move::Split => {
                    let splitter = s.hand0.last();
                    let c1 = cards[s.cursor];
                    let k1 = bump(s.cursor, cards.len() as int);
                    let c2 = cards[k1];
                    lemma_run_terminal(
                        table,
                        cards,
                        GameState {
                            hand0: s.hand0.drop_last().push(c1),
                            hand1: s.hand1.push(splitter).push(c2),
                            player_total: s.player_total + card_value(c2),
                            player_moves: s.player_moves.push(Move::Split),
                            player_done: true,
                            cursor: bump(k1, cards.len() as int),
                            ..s
                        },
                    );
                },
            },
        }
    } else if !s.dealer_revealed {
        lemma_run_terminal(
            table,
            cards,
            GameState {
                dealer_total: s.dealer_total + card_value(s.dealer_hand.last()),
                dealer_revealed: true,
                ..s
            },
        );
    } else {
        let c = cards[s.cursor];
        let dt = s.dealer_total + card_value(c);
        lemma_run_terminal(
            table,
            cards,
            GameState {
                dealer_hand: s.dealer_hand.push(c),
                dealer_total: dt,
                dealer_beats_player: if dt <= 21 && dt > s.player_total {
                    true
                } else {
                    s.dealer_beats_player
                },
                cursor: bump(s.cursor, cards.len() as int),
                ..s
            },
        );
    }
}

/// A summary of a finished game for reporting: the hands, the ordered move
/// log, and the winner (`None` is a tie).
#[derive(Debug)]
pub struct GameResult {
    pub dealer_hand: Vec<Card>,
    pub player_hands: (Vec<Card>, Vec<Card>),
    pub player_moves: Vec<Move>,
    pub winner: Option<Agent>,
}

impl From<Game> for GameResult {
    fn from(g: Game) -> (r: GameResult) {
        GameResult {
            dealer_hand: g.dealer_hand,
            player_hands: g.player_hands,
            player_moves: g.player_moves,
            winner: g.winner,
        }
    }
}

impl vstd::std_specs::convert::FromSpecImpl<Game> for GameResult {
    open spec fn obeys_from_spec() -> bool {
        true
    }

    open spec fn from_spec(g: Game) -> GameResult {
        GameResult {
            dealer_hand: g.dealer_hand,
            player_hands: g.player_hands,
            player_moves: g.player_moves,
            winner: g.winner,
        }
    }
}

/// Law: the termination verdict is a pure function of the frozen game state;
/// two evaluations on equal totals and flag return the same verdict, so a
/// terminal game stays terminal with the same winner.
pub proof fn lemma_game_ended_idempotent(a: Game, b: Game)
    requires
        a.player_total == b.player_total,
        a.dealer_total == b.dealer_total,
        a.dealer_beats_player == b.dealer_beats_player,
    ensures
        outcome(a.player_total as int, a.dealer_total as int, a.dealer_beats_player) == outcome(
            b.player_total as int,
            b.dealer_total as int,
            b.dealer_beats_player,
        ),
{
}

/// Law: equal totals tie, whatever the other flags say; the tie check has
/// top priority among the termination rules.
pub proof fn lemma_tie_has_priority(player_total: int, dealer_total: int, dealer_beats_player: bool)
    requires
        player_total == dealer_total,
    ensures
        outcome(player_total, dealer_total, dealer_beats_player) == (true, None::<Agent>),
{
}

/// Law: a busted player loses to a dealer short of 21, whatever the dealer's
/// total: the player-bust rule fires before the dealer-bust rule is even
/// reached.
pub proof fn lemma_player_bust_loses(player_total: int, dealer_total: int, dealer_beats_player: bool)
    requires
        player_total > 21,
        player_total != dealer_total,
        !dealer_beats_player,
        dealer_total != 21,
    ensures
        outcome(player_total, dealer_total, dealer_beats_player) == (
            true,
            Some(Agent::Dealer),
        ),
{
}

/// Law: a hand that is not an equal-value pair and totals under 5 is always
/// hit, regardless of the strategy table's contents. (A two-card hand
/// totalling 4 is necessarily a pair of twos and is governed by the pair
/// table instead.)
pub proof fn lemma_low_total_forces_hit(table: StrategyTable, hand: Seq<Card>, up: int)
    requires
        !is_value_pair(hand),
        hand_total(hand) < 5,
    ensures
        act_spec(table, hand, up) == Ok::<Move, StrategyError>(Move::Hit),
{
}

/// Law: on an equal-value two-card hand the policy returns exactly the pair
/// table's entry, so Split is chosen only where the table designates Split;
/// and on any other hand the pair table is never consulted: the policy
/// result is the same under any two tables that agree on hard totals.
pub proof fn lemma_pair_lookup_governs(
    t1: StrategyTable,
    t2: StrategyTable,
    hand: Seq<Card>,
    up: int,
)
    requires
        t1.hard@ == t2.hard@,
    ensures
        is_value_pair(hand) ==> act_spec(t1, hand, up) == (match t1.lookup_pair_spec(
            card_value(hand[0]),
            up,
        ) {
            Some(m) => Ok::<Move, StrategyError>(m),
            None => Err(
                StrategyError { pair: true, player: card_value(hand[0]) as u8, dealer: up as u8 },
            ),
        }),
        is_value_pair(hand) && act_spec(t1, hand, up) == Ok::<Move, StrategyError>(Move::Split)
            ==> t1.lookup_pair_spec(card_value(hand[0]), up) == Some(Move::Split),
        !is_value_pair(hand) ==> act_spec(t1, hand, up) == act_spec(t2, hand, up),
{
}

} // verus!
