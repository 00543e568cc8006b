//! Hands and their value under the ace-flexibility rule.

use crate::cards::{Card, Rank};
use vstd::prelude::*;

verus! {

/// The player's cards, in the order in which they were drawn.
pub struct PlayerHand(pub Vec<Card>);

/// The dealer's cards, in the order in which they were drawn.
pub struct DealerHand(pub Vec<Card>);

impl View for PlayerHand {
    type V = Seq<Card>;

    open spec fn view(&self) -> Seq<Card> {
        self.0@
    }
}

impl View for DealerHand {
    type V = Seq<Card>;

    open spec fn view(&self) -> Seq<Card> {
        self.0@
    }
}

/// Sum of the base point values of a hand, every Ace counted as 11.
pub open spec fn hard_total(hand: Seq<Card>) -> int
    decreases hand.len(),
{
    if hand.len() == 0 {
        0
    } else {
        hard_total(hand.drop_last()) + hand.last().rank.points()
    }
}

/// Number of Aces in a hand.
pub open spec fn ace_count(hand: Seq<Card>) -> int
    decreases hand.len(),
{
    if hand.len() == 0 {
        0
    } else {
        ace_count(hand.drop_last()) + if hand.last().rank == Rank::Ace {
            1int
        } else {
            0int
        }
    }
}

/// How many Aces count as 1 instead of 11: the least number that brings
/// `total` to 21 or under, or all of them where even that does not.
pub open spec fn downgrades(total: int, aces: int) -> int {
    if total <= 21 {
        0
    } else if aces <= (total - 21 + 9) / 10 {
        aces
    } else {
        (total - 21 + 9) / 10
    }
}

/// Value of a hand: its hard total less 10 for each downgraded Ace. A
/// value over 21 is a bust.
pub open spec fn hand_value(hand: Seq<Card>) -> int {
    hard_total(hand) - 10 * downgrades(hard_total(hand), ace_count(hand))
}

/// Adding a card adds its points to the hard total, and one to the number
/// of Aces if it is an Ace.
pub proof fn lemma_totals_push(hand: Seq<Card>, card: Card)
    ensures
        hard_total(hand.push(card)) == hard_total(hand) + card.rank.points(),
        ace_count(hand.push(card)) == ace_count(hand) + if card.rank == Rank::Ace {
            1int
        } else {
            0int
        },
{
    assert(hand.push(card).drop_last() =~= hand);
}

/// The totals of two hands laid end to end are the sums of their totals.
pub proof fn lemma_totals_concat(a: Seq<Card>, b: Seq<Card>)
    ensures
        hard_total(a + b) == hard_total(a) + hard_total(b),
        ace_count(a + b) == ace_count(a) + ace_count(b),
    decreases b.len(),
{
    if b.len() == 0 {
        assert(a + b =~= a);
    } else {
        assert((a + b).drop_last() =~= a + b.drop_last());
        lemma_totals_concat(a, b.drop_last());
    }
}

/// Taking one card out of a hand takes its points out of the hard total.
proof fn lemma_totals_remove(hand: Seq<Card>, i: int)
    requires
        0 <= i < hand.len(),
    ensures
        hard_total(hand) == hard_total(hand.remove(i)) + hand[i].rank.points(),
        ace_count(hand) == ace_count(hand.remove(i)) + if hand[i].rank == Rank::Ace {
            1int
        } else {
            0int
        },
{
    let front = hand.subrange(0, i);
    let back = hand.subrange(i + 1, hand.len() as int);
    assert(hand =~= front.push(hand[i]) + back);
    assert(hand.remove(i) =~= front + back);
    lemma_totals_push(front, hand[i]);
    lemma_totals_concat(front.push(hand[i]), back);
    lemma_totals_concat(front, back);
}

/// Two hands that hold the same cards, in whatever order, have the same
/// hard total and the same number of Aces.
pub proof fn lemma_totals_permutation(a: Seq<Card>, b: Seq<Card>)
    requires
        a.to_multiset() == b.to_multiset(),
    ensures
        hard_total(a) == hard_total(b),
        ace_count(a) == ace_count(b),
    decreases a.len(),
{
    broadcast use vstd::seq_lib::group_to_multiset_ensures;

    assert(a.len() == a.to_multiset().len());
    assert(b.len() == b.to_multiset().len());
    if a.len() > 0 {
        let card = a.last();
        let rest = a.drop_last();
        assert(a =~= rest.push(card));
        assert(a.to_multiset() =~= rest.to_multiset().insert(card));
        assert(b.to_multiset().count(card) > 0);
        assert(b.contains(card));
        let i = choose|i: int| 0 <= i < b.len() && b[i] == card;
        assert(b.remove(i).to_multiset() =~= b.to_multiset().remove(card));
        assert(rest.to_multiset() =~= b.remove(i).to_multiset());
        lemma_totals_permutation(rest, b.remove(i));
        lemma_totals_push(rest, card);
        lemma_totals_remove(b, i);
    }
}

/// With every Ace counted as 1 each card is worth at least 1 and at most
/// 10, and with every Ace counted as 11 at most 11.
pub proof fn lemma_totals_bounds(hand: Seq<Card>)
    ensures
        0 <= ace_count(hand) <= hand.len(),
        hand.len() <= hard_total(hand) - 10 * ace_count(hand) <= 10 * hand.len(),
        hard_total(hand) <= 11 * hand.len(),
    decreases hand.len(),
{
    if hand.len() > 0 {
        lemma_totals_bounds(hand.drop_last());
    }
}

/// The hard total of the first cards of a hand is at most that of the
/// whole hand.
pub proof fn lemma_hard_total_prefix(hand: Seq<Card>, n: int)
    requires
        0 <= n <= hand.len(),
    ensures
        0 <= hard_total(hand.take(n)) <= hard_total(hand),
        0 <= ace_count(hand.take(n)) <= ace_count(hand),
{
    assert(hand =~= hand.take(n) + hand.skip(n));
    lemma_totals_concat(hand.take(n), hand.skip(n));
    lemma_totals_bounds(hand.take(n));
    lemma_totals_bounds(hand.skip(n));
}

/// The value of a hand lies between its total with every Ace as 1 and its
/// hard total; so a hand is worth at least as much as it has cards.
pub proof fn lemma_hand_value_bounds(hand: Seq<Card>)
    ensures
        hand.len() <= hard_total(hand) - 10 * ace_count(hand) <= hand_value(hand),
        hand_value(hand) <= hard_total(hand) <= 11 * hand.len(),
{
    lemma_totals_bounds(hand);
}

/// Total of a hand in which `low_aces` of the Aces count as 1 and the
/// others as 11.
pub open spec fn total_with(hand: Seq<Card>, low_aces: int) -> int {
    hard_total(hand) - 10 * low_aces
}

/// The value is the best total that the Aces allow: it is one of the
/// totals that counting some Aces as 1 gives; if any of these is 21 or
/// under it is the greatest such, and if none is it is the least of them
/// all.
pub proof fn lemma_hand_value_is_best(hand: Seq<Card>)
    ensures
        exists|k: int| 0 <= k <= ace_count(hand) && hand_value(hand) == #[trigger] total_with(hand, k),
        forall|k: int|
            0 <= k <= ace_count(hand) && #[trigger] total_with(hand, k) <= 21 ==> total_with(
                hand,
                k,
            ) <= hand_value(hand) <= 21,
        hand_value(hand) > 21 ==> hand_value(hand) == total_with(hand, ace_count(hand)),
{
    lemma_totals_bounds(hand);
    let k = downgrades(hard_total(hand), ace_count(hand));
    assert(0 <= k <= ace_count(hand) && hand_value(hand) == total_with(hand, k));
}

/// The value of a hand depends on which cards it holds, not on their
/// order.
pub proof fn lemma_hand_value_order_independent(a: Seq<Card>, b: Seq<Card>)
    requires
        a.to_multiset() == b.to_multiset(),
    ensures
        hand_value(a) == hand_value(b),
{
    lemma_totals_permutation(a, b);
}

/// A hand without an Ace is worth the plain sum of its cards' points.
pub proof fn lemma_hand_value_without_aces(hand: Seq<Card>)
    requires
        forall|i: int| 0 <= i < hand.len() ==> hand[i].rank != Rank::Ace,
    ensures
        ace_count(hand) == 0,
        hand_value(hand) == hard_total(hand),
    decreases hand.len(),
{
    if hand.len() > 0 {
        lemma_hand_value_without_aces(hand.drop_last());
    }
}

/// No hand of two cards or fewer is a bust.
pub proof fn lemma_small_hand_is_no_bust(hand: Seq<Card>)
    requires
        hand.len() <= 2,
    ensures
        hand_value(hand) <= 21,
{
    lemma_totals_bounds(hand);
    if hand.len() == 2 {
        let first = hand.drop_last();
        assert(hard_total(first.drop_last()) == 0 && ace_count(first.drop_last()) == 0);
        assert(hard_total(first) == first.last().rank.points());
        assert(hard_total(hand) == first.last().rank.points() + hand.last().rank.points());
    }
}

/// Value of a hand. Sums the base points with every Ace as 11, then takes
/// 10 off for one Ace after another while the total is over 21.
pub fn calculate_hand_value(hand: &[Card]) -> (value: i32)
    requires
        hard_total(hand@) <= i32::MAX,
    ensures
        value == hand_value(hand@),
{
    let mut value: i32 = 0;
    let mut aces: i32 = 0;

    for i in 0..hand.len()
        invariant
            value == hard_total(hand@.take(i as int)),
            aces == ace_count(hand@.take(i as int)),
            hard_total(hand@) <= i32::MAX,
    {
        proof {
            assert(hand@.take(i + 1) =~= hand@.take(i as int).push(hand@[i as int]));
            lemma_totals_push(hand@.take(i as int), hand@[i as int]);
            lemma_hard_total_prefix(hand@, i + 1);
            lemma_totals_bounds(hand@.take(i + 1));
        }
        let card = hand[i];
        value += match card.rank {
            Rank::Two => 2,
            Rank::Three => 3,
            Rank::Four => 4,
            Rank::Five => 5,
            Rank::Six => 6,
            Rank::Seven => 7,
            Rank::Eight => 8,
            Rank::Nine => 9,
            Rank::Ten | Rank::Jack | Rank::Queen | Rank::King => 10,
            Rank::Ace => 11,
        };

        if card.rank == Rank::Ace {
            aces += 1;
        }
    }

    proof {
        assert(hand@.take(hand@.len() as int) =~= hand@);
        lemma_totals_bounds(hand@);
    }

    while value > 21 && aces > 0
        invariant
            0 <= aces,
            10 * aces <= value,
            value - 10 * downgrades(value as int, aces as int) == hand_value(hand@),
        decreases aces,
    {
        value -= 10;
        aces -= 1;
    }

    value
}

} // verus!
