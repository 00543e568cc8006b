use blackjack::cards::{all_cards, card_image_filename, Card, Rank, Suit};

const SUITS: [Suit; 4] = [Suit::Hearts, Suit::Diamonds, Suit::Clubs, Suit::Spades];

const RANKS: [Rank; 13] = [
    Rank::Two,
    Rank::Three,
    Rank::Four,
    Rank::Five,
    Rank::Six,
    Rank::Seven,
    Rank::Eight,
    Rank::Nine,
    Rank::Ten,
    Rank::Jack,
    Rank::Queen,
    Rank::King,
    Rank::Ace,
];

#[test]
fn test_card_image_filename() {
    let card = Card {
        rank: Rank::Ace,
        suit: Suit::Hearts,
    };
    let filename = card_image_filename(card);
    assert_eq!(filename, "assets/images/Ace_of_Hearts.png");
}

#[test]
fn image_filename_names_each_rank() {
    let names = [
        "2", "3", "4", "5", "6", "7", "8", "9", "10", "Jack", "Queen", "King", "Ace",
    ];
    for (rank, name) in RANKS.iter().zip(names.iter()) {
        let card = Card { rank: *rank, suit: Suit::Spades };
        assert_eq!(
            card_image_filename(card),
            format!("assets/images/{}_of_Spades.png", name)
        );
    }
}

#[test]
fn image_filename_names_each_suit() {
    let names = ["Hearts", "Diamonds", "Clubs", "Spades"];
    for (suit, name) in SUITS.iter().zip(names.iter()) {
        let card = Card { rank: Rank::Ten, suit: *suit };
        assert_eq!(
            card_image_filename(card),
            format!("assets/images/10_of_{}.png", name)
        );
    }
}

#[test]
fn image_filenames_are_distinct() {
    let cards = all_cards();
    for (i, a) in cards.iter().enumerate() {
        for b in cards.iter().skip(i + 1) {
            assert_ne!(card_image_filename(*a), card_image_filename(*b));
        }
    }
}

#[test]
fn all_cards_is_the_canonical_deck() {
    let cards = all_cards();
    assert_eq!(cards.len(), 52);
    for (s, suit) in SUITS.iter().enumerate() {
        for (r, rank) in RANKS.iter().enumerate() {
            assert_eq!(cards[13 * s + r], Card { rank: *rank, suit: *suit });
        }
    }
    assert_eq!(cards[0], Card { rank: Rank::Two, suit: Suit::Hearts });
    assert_eq!(cards[12], Card { rank: Rank::Ace, suit: Suit::Hearts });
    assert_eq!(cards[51], Card { rank: Rank::Ace, suit: Suit::Spades });
}

#[test]
fn cards_compare_by_rank_and_suit() {
    let card = Card { rank: Rank::Queen, suit: Suit::Clubs };
    let copy = card;
    assert_eq!(card, copy);
    assert_ne!(card, Card { rank: Rank::Queen, suit: Suit::Spades });
    assert_ne!(card, Card { rank: Rank::King, suit: Suit::Clubs });
}
