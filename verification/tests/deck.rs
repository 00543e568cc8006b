use blackjack::cards::{all_cards, Card, Rank, Suit};
use blackjack::deck::Deck;

#[test]
fn fresh_deck_holds_every_card_once() {
    for _ in 0..20 {
        let deck = Deck::new();
        assert_eq!(deck.0.len(), 52);
        for card in all_cards() {
            let count = deck.0.iter().filter(|c| **c == card).count();
            assert_eq!(count, 1);
        }
    }
}

#[test]
fn fresh_decks_are_shuffled() {
    let canonical = all_cards();
    let decks: Vec<Deck> = (0..5).map(|_| Deck::new()).collect();
    assert!(decks.iter().any(|deck| deck.0 != canonical));
    assert!(decks.iter().skip(1).any(|deck| deck.0 != decks[0].0));
}

#[test]
fn draw_takes_the_last_card() {
    let two = Card { rank: Rank::Two, suit: Suit::Clubs };
    let king = Card { rank: Rank::King, suit: Suit::Hearts };
    let ace = Card { rank: Rank::Ace, suit: Suit::Spades };
    let mut deck = Deck(vec![two, king, ace]);
    assert_eq!(deck.draw(), Some(ace));
    assert_eq!(deck.0, vec![two, king]);
    assert_eq!(deck.draw(), Some(king));
    assert_eq!(deck.0, vec![two]);
    assert_eq!(deck.draw(), Some(two));
    assert!(deck.0.is_empty());
}

#[test]
fn draw_from_an_empty_deck_gives_none() {
    let mut deck = Deck(Vec::new());
    assert_eq!(deck.draw(), None);
    assert_eq!(deck.draw(), None);
    assert!(deck.0.is_empty());
}

#[test]
fn fresh_deck_is_exhausted_after_52_draws() {
    let mut deck = Deck::new();
    let mut drawn: Vec<Card> = Vec::new();
    while let Some(card) = deck.draw() {
        drawn.push(card);
    }
    assert_eq!(drawn.len(), 52);
    assert_eq!(deck.draw(), None);
    for card in all_cards() {
        assert!(drawn.contains(&card));
    }
}
