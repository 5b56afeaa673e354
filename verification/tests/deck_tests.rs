use blackjack::{Card, CardSource, Deck};

const RANKS: [Card; 13] = [
    Card::Two,
    Card::Three,
    Card::Four,
    Card::Five,
    Card::Six,
    Card::Seven,
    Card::Eight,
    Card::Nine,
    Card::Ten,
    Card::J,
    Card::Q,
    Card::K,
    Card::A,
];

fn rank_count(cards: &[Card], rank: Card) -> usize {
    cards.iter().filter(|c| **c == rank).count()
}

#[test]
fn one_deck_has_thirteen_cards() {
    let deck = Deck::new(1);
    assert_eq!(deck.cards.len(), 13);
    for rank in RANKS {
        assert_eq!(rank_count(&deck.cards, rank), 1);
    }
}

#[test]
fn six_decks_have_six_of_each_rank() {
    let deck = Deck::new(6);
    assert_eq!(deck.cards.len(), 13 * 6);
    for rank in RANKS {
        assert_eq!(rank_count(&deck.cards, rank), 6);
    }
}

#[test]
fn zero_decks_are_empty() {
    let deck = Deck::new(0);
    assert_eq!(deck.cards.len(), 0);
}

#[test]
fn shuffle_keeps_every_card() {
    let mut deck = Deck::new(4);
    deck.shuffle();
    assert_eq!(deck.cards.len(), 13 * 4);
    for rank in RANKS {
        assert_eq!(rank_count(&deck.cards, rank), 4);
    }
}

#[test]
fn card_source_draws_in_order() {
    let mut source = CardSource {
        cards: vec![Card::A, Card::Two, Card::Three],
        cursor: 0,
    };
    assert_eq!(source.draw(), Card::A);
    assert_eq!(source.draw(), Card::Two);
    assert_eq!(source.draw(), Card::Three);
}

#[test]
fn card_source_wraps_around() {
    let mut source = CardSource {
        cards: vec![Card::A, Card::Two, Card::Three],
        cursor: 0,
    };
    let drawn: Vec<Card> = (0..7).map(|_| source.draw()).collect();
    assert_eq!(
        drawn,
        vec![
            Card::A,
            Card::Two,
            Card::Three,
            Card::A,
            Card::Two,
            Card::Three,
            Card::A,
        ]
    );
    assert_eq!(source.cursor, 1);
}

#[test]
fn card_source_from_deck_starts_at_top() {
    let deck = Deck::new(2);
    let first = deck.cards[0];
    let mut source = CardSource::new(deck);
    assert_eq!(source.cursor, 0);
    assert_eq!(source.draw(), first);
    assert_eq!(source.cursor, 1);
}
