use blackjack::game::hand_sum;
use blackjack::game::take_two;
use blackjack::{Agent, Card, CardSource, Game, GameResult, Move, StrategyError, StrategyTable};

fn frozen_game(player_total: u8, dealer_total: u8, dealer_beats_player: bool) -> Game {
    Game {
        dealer_hand: vec![Card::Ten, Card::Nine],
        dealer_total,
        player_moves: vec![],
        player_hands: (vec![Card::Ten, Card::Ten], vec![]),
        player_total,
        dealer_beats_player,
        winner: None,
    }
}

#[test]
fn hand_sum_is_the_sum_of_point_values() {
    assert_eq!(hand_sum(&vec![]), 0);
    assert_eq!(hand_sum(&vec![Card::Two]), 2);
    assert_eq!(hand_sum(&vec![Card::A]), 11);
    assert_eq!(hand_sum(&vec![Card::K, Card::Q]), 20);
    assert_eq!(hand_sum(&vec![Card::Ten, Card::J]), 20);
    assert_eq!(hand_sum(&vec![Card::Two, Card::Three, Card::A]), 16);
    assert_eq!(hand_sum(&vec![Card::A, Card::A]), 22);
}

#[test]
fn card_values_are_fixed() {
    assert_eq!(Card::Two.value(), 2);
    assert_eq!(Card::Nine.value(), 9);
    assert_eq!(Card::Ten.value(), 10);
    assert_eq!(Card::J.value(), 10);
    assert_eq!(Card::Q.value(), 10);
    assert_eq!(Card::K.value(), 10);
    assert_eq!(Card::A.value(), 11);
}

#[test]
fn tie_has_top_priority() {
    // Equal totals tie even while the dealer-beats flag is set.
    let game = frozen_game(20, 20, true);
    assert_eq!(game.game_ended(), (true, None));
}

#[test]
fn player_bust_loses_before_dealer_bust_is_checked() {
    let game = frozen_game(22, 19, false);
    assert_eq!(game.game_ended(), (true, Some(Agent::Dealer)));
}

#[test]
fn game_ended_is_idempotent_on_a_frozen_game() {
    let game = frozen_game(22, 19, false);
    let first = game.game_ended();
    let second = game.game_ended();
    assert_eq!(first, second);
    assert_eq!(second, (true, Some(Agent::Dealer)));
}

#[test]
fn dealer_bust_hands_the_round_to_the_player() {
    let game = frozen_game(20, 22, false);
    assert_eq!(game.game_ended(), (true, Some(Agent::Player)));
}

#[test]
fn twenty_one_wins_for_its_holder() {
    assert_eq!(
        frozen_game(21, 17, false).game_ended(),
        (true, Some(Agent::Player))
    );
    assert_eq!(
        frozen_game(20, 21, false).game_ended(),
        (true, Some(Agent::Dealer))
    );
}

#[test]
fn dealer_beats_flag_ends_the_round() {
    assert_eq!(
        frozen_game(18, 20, true).game_ended(),
        (true, Some(Agent::Dealer))
    );
}

#[test]
fn open_round_is_not_terminal() {
    assert_eq!(frozen_game(15, 10, false).game_ended(), (false, None));
}

fn game_with_hand(hand: Vec<Card>, up: Card) -> Game {
    Game {
        dealer_hand: vec![up, Card::Nine],
        dealer_total: up.value(),
        player_moves: vec![],
        player_hands: (hand, vec![]),
        player_total: 0,
        dealer_beats_player: false,
        winner: None,
    }
}

#[test]
fn low_total_forces_hit_whatever_the_table_holds() {
    // A single two is worth 4 points at most in no hand shape that is a
    // pair, so the policy hits even against an empty table.
    let empty = StrategyTable {
        hard: vec![],
        pairs: vec![],
    };
    let game = game_with_hand(vec![Card::Two], Card::Five);
    assert_eq!(game.act(&empty), Ok(Move::Hit));
    let basic = StrategyTable::basic();
    assert_eq!(game.act(&basic), Ok(Move::Hit));
}

#[test]
fn a_pair_of_twos_goes_to_the_pair_table_not_the_forced_hit() {
    // A two-card total of 4 is necessarily a pair of twos, and the pair
    // branch is consulted first: with no pair entry the lookup is the fatal
    // defect, with the basic table it is a split.
    let empty = StrategyTable {
        hard: vec![],
        pairs: vec![],
    };
    let game = game_with_hand(vec![Card::Two, Card::Two], Card::Five);
    assert_eq!(
        game.act(&empty),
        Err(StrategyError {
            pair: true,
            player: 2,
            dealer: 5
        })
    );
    let basic = StrategyTable::basic();
    assert_eq!(game.act(&basic), Ok(Move::Split));
}

#[test]
fn equal_value_face_cards_consult_the_pair_table() {
    let basic = StrategyTable::basic();
    let game = game_with_hand(vec![Card::K, Card::Q], Card::Five);
    assert_eq!(game.act(&basic), Ok(Move::Stand));
}

#[test]
fn split_is_chosen_only_where_the_pair_table_says_split() {
    let basic = StrategyTable::basic();
    let eights_vs_nine = game_with_hand(vec![Card::Eight, Card::Eight], Card::Nine);
    assert_eq!(eights_vs_nine.act(&basic), Ok(Move::Split));
    let nines_vs_seven = game_with_hand(vec![Card::Nine, Card::Nine], Card::Seven);
    assert_eq!(nines_vs_seven.act(&basic), Ok(Move::Stand));
}

#[test]
fn unequal_hand_never_touches_the_pair_table() {
    // Gutting the pair table changes nothing for a hand that is not a pair.
    let mut table = StrategyTable::basic();
    table.pairs = vec![];
    let game = game_with_hand(vec![Card::Ten, Card::Seven], Card::Ten);
    assert_eq!(game.act(&table), Ok(Move::Stand));
}

#[test]
fn high_total_forces_stand_whatever_the_table_holds() {
    let empty = StrategyTable {
        hard: vec![],
        pairs: vec![],
    };
    let game = game_with_hand(vec![Card::Ten, Card::Nine], Card::Ten);
    assert_eq!(game.act(&empty), Ok(Move::Stand));
}

#[test]
fn take_two_draws_the_next_two_cards() {
    let mut source = CardSource {
        cards: vec![Card::A, Card::Two, Card::Three],
        cursor: 0,
    };
    assert_eq!(take_two(&mut source), vec![Card::A, Card::Two]);
    assert_eq!(source.cursor, 2);
    assert_eq!(take_two(&mut source), vec![Card::Three, Card::A]);
    assert_eq!(source.cursor, 1);
}

#[test]
fn next_card_draws_from_the_source() {
    let game = frozen_game(15, 10, false);
    let mut source = CardSource {
        cards: vec![Card::Seven, Card::Eight],
        cursor: 0,
    };
    assert_eq!(game.next_card(&mut source), Card::Seven);
    assert_eq!(game.next_card(&mut source), Card::Eight);
    assert_eq!(game.next_card(&mut source), Card::Seven);
}

#[test]
fn new_deals_two_cards_each_and_counts_only_the_up_card() {
    let mut source = CardSource {
        cards: vec![
            Card::Ten,
            Card::Nine,
            Card::Eight,
            Card::Seven,
            Card::Five,
            Card::Two,
            Card::A,
            Card::A,
        ],
        cursor: 0,
    };
    let game = Game::new(&mut source);
    assert_eq!(game.dealer_hand, vec![Card::Ten, Card::Nine]);
    assert_eq!(game.dealer_total, 10);
    assert_eq!(game.player_hands.0, vec![Card::Eight, Card::Seven]);
    assert_eq!(game.player_hands.1, vec![]);
    assert_eq!(game.player_total, 15);
    assert_eq!(game.player_moves, vec![]);
    assert!(!game.dealer_beats_player);
    assert_eq!(game.winner, None);
    assert_eq!(source.cursor, 4);
}

#[test]
fn full_round_hit_then_stand_dealer_reaches_twenty_one() {
    // Dealer: Ten (up), Nine (hole). Player: Eight, Seven.
    // Policy: hit 15 against 10 (drawing Five), then stand on 20.
    // Dealer reveals 19, draws Two for 21, which beats 20.
    let mut source = CardSource {
        cards: vec![
            Card::Ten,
            Card::Nine,
            Card::Eight,
            Card::Seven,
            Card::Five,
            Card::Two,
            Card::A,
            Card::A,
        ],
        cursor: 0,
    };
    let table = StrategyTable::basic();
    let mut game = Game::new(&mut source);
    assert_eq!(game.start(&mut source, &table), Ok(()));
    assert_eq!(game.winner, Some(Agent::Dealer));
    assert_eq!(game.dealer_hand, vec![Card::Ten, Card::Nine, Card::Two]);
    assert_eq!(game.dealer_total, 21);
    assert_eq!(
        game.player_hands.0,
        vec![Card::Eight, Card::Seven, Card::Five]
    );
    assert_eq!(game.player_hands.1, vec![]);
    assert_eq!(game.player_total, 20);
    assert_eq!(game.player_moves, vec![Move::Hit, Move::Stand]);
    assert!(game.dealer_beats_player);
    assert_eq!(source.cursor, 6);
}

#[test]
fn full_round_split_then_dealer_busts() {
    // Dealer: Nine (up), Five (hole). Player: Eight, Eight -> split against
    // 9, drawing Three and Four. Dealer reveals 14, draws K and busts at 24.
    let mut source = CardSource {
        cards: vec![
            Card::Nine,
            Card::Five,
            Card::Eight,
            Card::Eight,
            Card::Three,
            Card::Four,
            Card::K,
            Card::Two,
        ],
        cursor: 0,
    };
    let table = StrategyTable::basic();
    let mut game = Game::new(&mut source);
    assert_eq!(game.start(&mut source, &table), Ok(()));
    assert_eq!(game.winner, Some(Agent::Player));
    assert_eq!(game.dealer_hand, vec![Card::Nine, Card::Five, Card::K]);
    assert_eq!(game.dealer_total, 24);
    assert_eq!(game.player_hands.0, vec![Card::Eight, Card::Three]);
    assert_eq!(game.player_hands.1, vec![Card::Eight, Card::Four]);
    assert_eq!(game.player_total, 20);
    assert_eq!(game.player_moves, vec![Move::Split]);
    assert!(!game.dealer_beats_player);
    assert_eq!(source.cursor, 7);
}

#[test]
fn full_round_double_to_twenty_one_ends_before_the_reveal() {
    // Dealer: Seven (up), Eight (hole). Player: Six, Five -> double on 11,
    // drawing Ten for 21: the round ends before the dealer reveals.
    let mut source = CardSource {
        cards: vec![
            Card::Seven,
            Card::Eight,
            Card::Six,
            Card::Five,
            Card::Ten,
            Card::A,
            Card::A,
            Card::A,
        ],
        cursor: 0,
    };
    let table = StrategyTable::basic();
    let mut game = Game::new(&mut source);
    assert_eq!(game.start(&mut source, &table), Ok(()));
    assert_eq!(game.winner, Some(Agent::Player));
    assert_eq!(game.dealer_hand, vec![Card::Seven, Card::Eight]);
    assert_eq!(game.dealer_total, 7);
    assert_eq!(
        game.player_hands.0,
        vec![Card::Six, Card::Five, Card::Ten]
    );
    assert_eq!(game.player_total, 21);
    assert_eq!(game.player_moves, vec![Move::Double]);
    assert_eq!(source.cursor, 5);
}

#[test]
fn equal_totals_at_the_deal_tie_immediately() {
    // Dealer up-card is an ace (11); the player holds Five, Six (11).
    let mut source = CardSource {
        cards: vec![
            Card::A,
            Card::Two,
            Card::Five,
            Card::Six,
            Card::K,
            Card::K,
            Card::K,
            Card::K,
        ],
        cursor: 0,
    };
    let table = StrategyTable::basic();
    let mut game = Game::new(&mut source);
    assert_eq!(game.start(&mut source, &table), Ok(()));
    assert_eq!(game.winner, None);
    assert_eq!(game.player_moves, vec![]);
    assert_eq!(source.cursor, 4);
}

#[test]
fn missing_entry_aborts_the_round_with_the_offending_key() {
    let empty = StrategyTable {
        hard: vec![],
        pairs: vec![],
    };
    let mut source = CardSource {
        cards: vec![
            Card::Ten,
            Card::Ten,
            Card::Nine,
            Card::Seven,
            Card::A,
            Card::A,
            Card::A,
            Card::A,
        ],
        cursor: 0,
    };
    let mut game = Game::new(&mut source);
    assert_eq!(
        game.start(&mut source, &empty),
        Err(StrategyError {
            pair: false,
            player: 16,
            dealer: 10
        })
    );
    // The state froze at the failed lookup: nothing was drawn or decided.
    assert_eq!(game.player_moves, vec![]);
    assert_eq!(game.player_hands.0, vec![Card::Nine, Card::Seven]);
    assert_eq!(game.winner, None);
    assert_eq!(source.cursor, 4);
}

#[test]
fn game_result_carries_the_terminal_summary() {
    let mut source = CardSource {
        cards: vec![
            Card::Seven,
            Card::Eight,
            Card::Six,
            Card::Five,
            Card::Ten,
            Card::A,
            Card::A,
            Card::A,
        ],
        cursor: 0,
    };
    let table = StrategyTable::basic();
    let mut game = Game::new(&mut source);
    assert_eq!(game.start(&mut source, &table), Ok(()));
    let result = GameResult::from(game);
    assert_eq!(result.winner, Some(Agent::Player));
    assert_eq!(result.dealer_hand, vec![Card::Seven, Card::Eight]);
    assert_eq!(
        result.player_hands.0,
        vec![Card::Six, Card::Five, Card::Ten]
    );
    assert_eq!(result.player_moves, vec![Move::Double]);
}
