//! The card model: ranks, suits, cards, and the 52-card domain.

use vstd::prelude::*;
use vstd::string::StringExecFns;

verus! {

/// The four suits. A suit carries no points; it only tells cards apart.
#[derive(Debug, Clone, Copy, PartialEq, Eq, Hash, Structural)]
pub enum Suit {
    Hearts,
    Diamonds,
    Clubs,
    Spades,
}

/// The thirteen ranks, Two up to Ace.
#[derive(Debug, Clone, Copy, PartialEq, Eq, Hash, Structural)]
pub enum Rank {
    Two,
    Three,
    Four,
    Five,
    Six,
    Seven,
    Eight,
    Nine,
    Ten,
    Jack,
    Queen,
    King,
    Ace,
}

/// A playing card. Every pair of a rank and a suit is a card.
#[derive(Debug, Clone, Copy, PartialEq, Eq, Hash, Structural)]
pub struct Card {
    pub rank: Rank,
    pub suit: Suit,
}

impl Suit {
    /// Position of the suit in the order in which a deck is laid out.
    pub open spec fn ordinal(self) -> int {
        match self {
            Suit::Hearts => 0,
            Suit::Diamonds => 1,
            Suit::Clubs => 2,
            Suit::Spades => 3,
        }
    }

    /// The suit at position `i`; the inverse of `ordinal` on `0..4`.
    pub open spec fn at(i: int) -> Suit {
        if i == 0 {
            Suit::Hearts
        } else if i == 1 {
            Suit::Diamonds
        } else if i == 2 {
            Suit::Clubs
        } else {
            Suit::Spades
        }
    }

    /// The suit's name as it appears in an image's file name.
    pub open spec fn name(self) -> Seq<char> {
        match self {
            Suit::Hearts => "Hearts"@,
            Suit::Diamonds => "Diamonds"@,
            Suit::Clubs => "Clubs"@,
            Suit::Spades => "Spades"@,
        }
    }
}

impl Rank {
    /// Base point value: the number for Two to Ten, 10 for a face card,
    /// 11 for an Ace.
    pub open spec fn points(self) -> int {
        match self {
            Rank::Two => 2,
            Rank::Three => 3,
            Rank::Four => 4,
            Rank::Five => 5,
            Rank::Six => 6,
            Rank::Seven => 7,
            Rank::Eight => 8,
            Rank::Nine => 9,
            Rank::Ten | Rank::Jack | Rank::Queen | Rank::King => 10,
            Rank::Ace => 11,
        }
    }

    /// Position of the rank in the order Two, Three, .., King, Ace.
    pub open spec fn ordinal(self) -> int {
        match self {
            Rank::Two => 0,
            Rank::Three => 1,
            Rank::Four => 2,
            Rank::Five => 3,
            Rank::Six => 4,
            Rank::Seven => 5,
            Rank::Eight => 6,
            Rank::Nine => 7,
            Rank::Ten => 8,
            Rank::Jack => 9,
            Rank::Queen => 10,
            Rank::King => 11,
            Rank::Ace => 12,
        }
    }

    /// The rank at position `i`; the inverse of `ordinal` on `0..13`.
    pub open spec fn at(i: int) -> Rank {
        if i == 0 {
            Rank::Two
        } else if i == 1 {
            Rank::Three
        } else if i == 2 {
            Rank::Four
        } else if i == 3 {
            Rank::Five
        } else if i == 4 {
            Rank::Six
        } else if i == 5 {
            Rank::Seven
        } else if i == 6 {
            Rank::Eight
        } else if i == 7 {
            Rank::Nine
        } else if i == 8 {
            Rank::Ten
        } else if i == 9 {
            Rank::Jack
        } else if i == 10 {
            Rank::Queen
        } else if i == 11 {
            Rank::King
        } else {
            Rank::Ace
        }
    }

    /// The rank's name as it appears in an image's file name.
    pub open spec fn name(self) -> Seq<char> {
        match self {
            Rank::Two => "2"@,
            Rank::Three => "3"@,
            Rank::Four => "4"@,
            Rank::Five => "5"@,
            Rank::Six => "6"@,
            Rank::Seven => "7"@,
            Rank::Eight => "8"@,
            Rank::Nine => "9"@,
            Rank::Ten => "10"@,
            Rank::Jack => "Jack"@,
            Rank::Queen => "Queen"@,
            Rank::King => "King"@,
            Rank::Ace => "Ace"@,
        }
    }
}

impl Card {
    /// Position of the card in the canonical deck: suit by suit, and within
    /// a suit from Two up to Ace.
    pub open spec fn ordinal(self) -> int {
        13 * self.suit.ordinal() + self.rank.ordinal()
    }

    /// The card at position `i` of the canonical deck.
    pub open spec fn at(i: int) -> Card {
        Card { rank: Rank::at(i % 13), suit: Suit::at(i / 13) }
    }

    /// Path of the image that shows this card.
    pub open spec fn image_path(self) -> Seq<char> {
        "assets/images/"@ + self.rank.name() + "_of_"@ + self.suit.name() + ".png"@
    }
}

/// The 52-card domain in canonical order.
pub open spec fn full_deck() -> Seq<Card> {
    Seq::new(52, |i: int| Card::at(i))
}

/// `cards` holds every card of the domain exactly once: nothing is missing
/// and nothing occurs twice.
pub open spec fn is_complete(cards: Seq<Card>) -> bool {
    forall|c: Card| #[trigger] cards.to_multiset().count(c) == 1
}

/// `Card::at` and `Card::ordinal` are inverse to each other: the 52
/// positions and the 52 cards correspond one to one.
pub proof fn lemma_card_positions()
    ensures
        forall|c: Card| 0 <= #[trigger] c.ordinal() < 52 && Card::at(c.ordinal()) == c,
        forall|i: int| 0 <= i < 52 ==> (#[trigger] Card::at(i)).ordinal() == i,
{
}

/// The canonical deck is complete.
pub proof fn lemma_full_deck_is_complete()
    ensures
        is_complete(full_deck()),
        full_deck().len() == 52,
{
    broadcast use vstd::seq_lib::group_to_multiset_ensures;

    let f = full_deck();
    lemma_card_positions();
    assert(f.no_duplicates()) by {
        assert forall|i: int, j: int| 0 <= i < f.len() && 0 <= j < f.len() && i != j implies f[i]
            != f[j] by {
            assert(f[i].ordinal() == i);
            assert(f[j].ordinal() == j);
        }
    }
    f.lemma_multiset_has_no_duplicates();
    assert forall|c: Card| #[trigger] f.to_multiset().count(c) == 1 by {
        assert(f[c.ordinal()] == c);
        assert(f.contains(c));
    }
}

/// A complete sequence of cards is a rearrangement of the canonical deck,
/// so it has 52 cards and no card twice.
pub proof fn lemma_complete_is_permutation(cards: Seq<Card>)
    requires
        is_complete(cards),
    ensures
        cards.to_multiset() == full_deck().to_multiset(),
        cards.len() == 52,
        cards.no_duplicates(),
        forall|c: Card| cards.contains(c),
{
    broadcast use vstd::seq_lib::group_to_multiset_ensures;

    lemma_full_deck_is_complete();
    assert(cards.to_multiset() =~= full_deck().to_multiset());
    assert(cards.len() == cards.to_multiset().len());
    assert(full_deck().len() == full_deck().to_multiset().len());
    cards.lemma_multiset_has_no_duplicates_conv();
    assert forall|c: Card| cards.contains(c) by {
        assert(cards.to_multiset().count(c) == 1);
    }
}

/// The 52 cards in canonical order: suit by suit, and within a suit from
/// Two up to Ace.
pub fn all_cards() -> (cards: Vec<Card>)
    ensures
        cards@ == full_deck(),
{
    let mut cards: Vec<Card> = Vec::new();
    let suits = [Suit::Hearts, Suit::Diamonds, Suit::Clubs, Suit::Spades];
    let ranks = [
        Rank::Two,
        Rank::Three,
        Rank::Four,
        Rank::Five,
        Rank::Six,
        Rank::Seven,
        Rank::Eight,
        Rank::Nine,
        Rank::Ten,
        Rank::Jack,
        Rank::Queen,
        Rank::King,
        Rank::Ace,
    ];
    for s in 0..4usize
        invariant
            cards@ =~= full_deck().take(13 * s),
            forall|i: int| 0 <= i < 4 ==> suits[i] == Suit::at(i),
            forall|j: int| 0 <= j < 13 ==> ranks[j] == Rank::at(j),
    {
        for r in 0..13usize
            invariant
                0 <= s < 4,
                cards@ =~= full_deck().take(13 * s + r),
                forall|i: int| 0 <= i < 4 ==> suits[i] == Suit::at(i),
                forall|j: int| 0 <= j < 13 ==> ranks[j] == Rank::at(j),
        {
            cards.push(Card { rank: ranks[r], suit: suits[s] });
        }
    }
    assert(cards@ =~= full_deck());
    cards
}

/// Path of the image that shows `card`: the directory of the images, the
/// rank's name, `_of_`, the suit's name and the extension.
pub fn card_image_filename(card: Card) -> (path: String)
    ensures
        path@ == card.image_path(),
{
    let rank_str = match card.rank {
        Rank::Two => "2",
        Rank::Three => "3",
        Rank::Four => "4",
        Rank::Five => "5",
        Rank::Six => "6",
        Rank::Seven => "7",
        Rank::Eight => "8",
        Rank::Nine => "9",
        Rank::Ten => "10",
        Rank::Jack => "Jack",
        Rank::Queen => "Queen",
        Rank::King => "King",
        Rank::Ace => "Ace",
    };
    let suit_str = match card.suit {
        Suit::Hearts => "Hearts",
        Suit::Diamonds => "Diamonds",
        Suit::Clubs => "Clubs",
        Suit::Spades => "Spades",
    };
    let mut path = String::from_str("assets/images/");
    path.append(rank_str);
    path.append("_of_");
    path.append(suit_str);
    path.append(".png");
    path
}

} // verus!
