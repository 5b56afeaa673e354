//! The simulation driver's verifiable parts: configuration, playing one
//! game against a shared source, and aggregating terminal outcomes.
//!
//! Launching many games concurrently and printing percentages are plumbing
//! around this core; every game's contribution lands in exactly one of the
//! three buckets counted here.

use vstd::prelude::*;

use crate::card::card_value;
use crate::deck::{CardSource, bump};
use crate::game::{Game, GameResult, GameState, abs, dealt_state, hand_total, run};
use crate::strategy::{Agent, StrategyError, StrategyTable};

verus! {

/// Simulation options: how many decks feed the shared card source and how
/// many games are played.
#[derive(Debug, Clone, Copy)]
pub struct Opt {
    pub num_decks: usize,
    pub simulation_count: usize,
}

impl Default for Opt {
    /// Six decks (as Vegas tables use) and ten thousand games.
    fn default() -> (o: Opt)
        ensures
            o.num_decks == 6,
            o.simulation_count == 10000,
    {
        Opt { num_decks: 6, simulation_count: 10000 }
    }
}

/// How many of the games in `s` ended with winner `w` (`None` counts ties).
pub open spec fn count_outcomes(s: Seq<GameResult>, w: Option<Agent>) -> int
    decreases s.len(),
{
    if s.len() == 0 {
        0
    } else {
        count_outcomes(s.drop_last(), w) + if s.last().winner == w {
            1int
        } else {
            0int
        }
    }
}

/// Law: every game lands in exactly one bucket, so the player-win, dealer-win
/// and tie counts always sum to the number of games.
pub proof fn lemma_each_game_one_bucket(s: Seq<GameResult>)
    ensures
        count_outcomes(s, Some(Agent::Player)) + count_outcomes(s, Some(Agent::Dealer))
            + count_outcomes(s, None::<Agent>) == s.len(),
    decreases s.len(),
{
    if s.len() > 0 {
        lemma_each_game_one_bucket(s.drop_last());
        let w = s.last().winner;
        assert(w == Some(Agent::Player) || w == Some(Agent::Dealer) || w == None::<Agent>);
    }
}

/// Aggregate counts of terminal outcomes over a batch of games.
#[derive(Debug, Clone, Copy, PartialEq, Eq, Structural)]
pub struct Tally {
    pub player_wins: usize,
    pub dealer_wins: usize,
    pub ties: usize,
}

/// Counts each game's winner into its bucket. The three buckets partition
/// the batch: their sum is the batch size.
pub fn tally(results: &Vec<GameResult>) -> (t: Tally)
    ensures
        t.player_wins as int == count_outcomes(results@, Some(Agent::Player)),
        t.dealer_wins as int == count_outcomes(results@, Some(Agent::Dealer)),
        t.ties as int == count_outcomes(results@, None::<Agent>),
        t.player_wins + t.dealer_wins + t.ties == results@.len(),
{
    let mut player_wins: usize = 0;
    let mut dealer_wins: usize = 0;
    let mut ties: usize = 0;
    let mut i: usize = 0;
    while i < results.len()
        invariant
            i <= results@.len(),
            player_wins as int == count_outcomes(results@.take(i as int), Some(Agent::Player)),
            dealer_wins as int == count_outcomes(results@.take(i as int), Some(Agent::Dealer)),
            ties as int == count_outcomes(results@.take(i as int), None::<Agent>),
            player_wins + dealer_wins + ties == i,
        decreases results@.len() - i,
    {
        proof {
            assert(results@.take(i + 1).drop_last() =~= results@.take(i as int));
            assert(results@.take(i + 1).last() == results@[i as int]);
        }
        match results[i].winner {
            Some(Agent::Player) => {
                player_wins = player_wins + 1;
            },
            Some(Agent::Dealer) => {
                dealer_wins = dealer_wins + 1;
            },
            None => {
                ties = ties + 1;
            },
        }
        i = i + 1;
    }
    proof {
        assert(results@.take(results@.len() as int) =~= results@);
    }
    Tally { player_wins, dealer_wins, ties }
}

/// Deals a fresh game from the source, plays it to its terminal state, and
/// summarises it: the work one simulation task performs. The summary is
/// exactly what `run` computes from the cards under the source's cursor; a
/// missing strategy entry surfaces as the fatal configuration defect.
pub fn run_one_game(source: &mut CardSource, table: &StrategyTable) -> (r: Result<
    GameResult,
    StrategyError,
>)
    requires
        old(source).wf(),
    ensures
        final(source).wf(),
        final(source).cards@ == old(source).cards@,
        ({
            let g = run(
                *table,
                old(source).cards@,
                dealt_state(old(source).cards@, old(source).cursor as int),
            );
            &&& final(source).cursor as int == g.cursor
            &&& (match r {
                Ok(res) => {
                    &&& g.err is None
                    &&& res.dealer_hand@ == g.dealer_hand
                    &&& res.player_hands.0@ == g.hand0
                    &&& res.player_hands.1@ == g.hand1
                    &&& res.player_moves@ == g.player_moves
                    &&& res.winner == g.winner
                },
                Err(e) => g.err == Some(e),
            })
        }),
{
    let ghost cards = old(source).cards@;
    let ghost k0 = old(source).cursor as int;
    let mut game = Game::new(source);
    proof {
        assert(abs(game, false, false, source.cursor as int) =~= dealt_state(cards, k0));
    }
    match game.start(source, table) {
        Ok(()) => Ok(GameResult::from(game)),
        Err(e) => Err(e),
    }
}

} // verus!
