use blackjack::cards::{all_cards, Card, Rank, Suit};
use blackjack::hand::calculate_hand_value;

fn hearts(ranks: &[Rank]) -> Vec<Card> {
    ranks.iter().map(|rank| Card { rank: *rank, suit: Suit::Hearts }).collect()
}

fn points(rank: Rank) -> i32 {
    match rank {
        Rank::Two => 2,
        Rank::Three => 3,
        Rank::Four => 4,
        Rank::Five => 5,
        Rank::Six => 6,
        Rank::Seven => 7,
        Rank::Eight => 8,
        Rank::Nine => 9,
        Rank::Ten | Rank::Jack | Rank::Queen | Rank::King => 10,
        Rank::Ace => 11,
    }
}

#[test]
fn empty_hand_is_worth_nothing() {
    assert_eq!(calculate_hand_value(&[]), 0);
}

#[test]
fn single_cards_have_their_base_points() {
    let ranks = [
        (Rank::Two, 2),
        (Rank::Three, 3),
        (Rank::Four, 4),
        (Rank::Five, 5),
        (Rank::Six, 6),
        (Rank::Seven, 7),
        (Rank::Eight, 8),
        (Rank::Nine, 9),
        (Rank::Ten, 10),
        (Rank::Jack, 10),
        (Rank::Queen, 10),
        (Rank::King, 10),
        (Rank::Ace, 11),
    ];
    for (rank, expected) in ranks.iter() {
        for suit in [Suit::Hearts, Suit::Diamonds, Suit::Clubs, Suit::Spades].iter() {
            let hand = [Card { rank: *rank, suit: *suit }];
            assert_eq!(calculate_hand_value(&hand), *expected);
        }
    }
}

#[test]
fn two_aces_are_worth_twelve() {
    let hand = [
        Card { rank: Rank::Ace, suit: Suit::Hearts },
        Card { rank: Rank::Ace, suit: Suit::Spades },
    ];
    assert_eq!(calculate_hand_value(&hand), 12);
}

#[test]
fn two_aces_and_a_nine_are_worth_twenty_one() {
    let hand = [
        Card { rank: Rank::Ace, suit: Suit::Hearts },
        Card { rank: Rank::Ace, suit: Suit::Clubs },
        Card { rank: Rank::Nine, suit: Suit::Diamonds },
    ];
    assert_eq!(calculate_hand_value(&hand), 21);
}

#[test]
fn ace_and_king_are_worth_twenty_one() {
    assert_eq!(calculate_hand_value(&hearts(&[Rank::Ace, Rank::King])), 21);
}

#[test]
fn aces_are_downgraded_one_at_a_time() {
    // 11 + 6 = 17: soft, nothing to take off.
    assert_eq!(calculate_hand_value(&hearts(&[Rank::Ace, Rank::Six])), 17);
    // 11 + 6 + 10 = 27 -> 17.
    assert_eq!(calculate_hand_value(&hearts(&[Rank::Ace, Rank::Six, Rank::King])), 17);
    // 11 + 11 + 11 = 33 -> 23 -> 13.
    assert_eq!(calculate_hand_value(&hearts(&[Rank::Ace, Rank::Ace, Rank::Ace])), 13);
    // 44 -> 34 -> 24 -> 14.
    assert_eq!(
        calculate_hand_value(&hearts(&[Rank::Ace, Rank::Ace, Rank::Ace, Rank::Ace])),
        14
    );
    // 11 + 10 + 10 = 31 -> 21.
    assert_eq!(calculate_hand_value(&hearts(&[Rank::Ace, Rank::King, Rank::Queen])), 21);
    // 11 + 11 + 10 + 10 = 42 -> 32 -> 22: every ace is down, still bust.
    assert_eq!(
        calculate_hand_value(&hearts(&[Rank::Ace, Rank::Ace, Rank::King, Rank::Queen])),
        22
    );
}

#[test]
fn a_bust_keeps_its_total() {
    assert_eq!(calculate_hand_value(&hearts(&[Rank::Ten, Rank::Nine, Rank::King])), 29);
    assert_eq!(calculate_hand_value(&hearts(&[Rank::King, Rank::Queen, Rank::Two])), 22);
}

#[test]
fn hand_without_aces_is_the_plain_sum() {
    let hand = hearts(&[Rank::Two, Rank::Seven, Rank::Jack, Rank::Nine, Rank::Queen, Rank::Five]);
    assert_eq!(calculate_hand_value(&hand), 2 + 7 + 10 + 9 + 10 + 5);

    let no_aces: Vec<Card> = all_cards().into_iter().filter(|c| c.rank != Rank::Ace).collect();
    assert_eq!(no_aces.len(), 48);
    for len in 0..=no_aces.len() {
        let hand = &no_aces[..len];
        let sum: i32 = hand.iter().map(|c| points(c.rank)).sum();
        assert_eq!(calculate_hand_value(hand), sum);
    }
}

#[test]
fn the_whole_deck_is_worth_340() {
    // 4 * (2 + .. + 10 + 10 + 10 + 10 + 11) = 380, four aces down: 340.
    assert_eq!(calculate_hand_value(&all_cards()), 340);
}

#[test]
fn value_does_not_depend_on_order() {
    let hand = hearts(&[Rank::Ace, Rank::Nine, Rank::Ace, Rank::Five, Rank::King]);
    let expected: i32 = 26;
    assert_eq!(calculate_hand_value(&hand), expected);

    let mut reversed = hand.clone();
    reversed.reverse();
    assert_eq!(calculate_hand_value(&reversed), expected);

    for shift in 0..hand.len() {
        let mut rotated = hand.clone();
        rotated.rotate_left(shift);
        assert_eq!(calculate_hand_value(&rotated), expected);
        rotated.swap(0, 3);
        assert_eq!(calculate_hand_value(&rotated), expected);
    }
}

#[test]
fn value_of_every_three_card_order() {
    let cards = hearts(&[Rank::Ace, Rank::Ace, Rank::Nine]);
    let orders = [[0, 1, 2], [0, 2, 1], [1, 0, 2], [1, 2, 0], [2, 0, 1], [2, 1, 0]];
    for order in orders.iter() {
        let hand = [cards[order[0]], cards[order[1]], cards[order[2]]];
        assert_eq!(calculate_hand_value(&hand), 21);
    }
}

#[test]
fn value_is_the_best_total_the_aces_allow() {
    let deck = all_cards();
    // Hands of three cards from a spread of the deck.
    for a in (0..52).step_by(5) {
        for b in (a + 1..52).step_by(3) {
            for c in (b + 1..52).step_by(2) {
                let hand = [deck[a], deck[b], deck[c]];
                let hard: i32 = hand.iter().map(|card| points(card.rank)).sum();
                let aces = hand.iter().filter(|card| card.rank == Rank::Ace).count() as i32;
                let mut best = hard - 10 * aces;
                for low in 0..=aces {
                    let total = hard - 10 * low;
                    if total <= 21 && total > best {
                        best = total;
                    }
                }
                assert_eq!(calculate_hand_value(&hand), best);
            }
        }
    }
}
