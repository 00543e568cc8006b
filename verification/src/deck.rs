//! The deck: the 52 cards in shuffled order, drawn from the top.

use crate::cards::{
    all_cards, full_deck, is_complete, lemma_complete_is_permutation,
    lemma_full_deck_is_complete, Card,
};
use rand::seq::SliceRandom;
use vstd::prelude::*;

verus! {

/// The generator that `rand` keeps for each thread. Its state is hidden:
/// a value of it is only handed on to the shuffle.
#[verifier::external_type_specification]
#[verifier::external_body]
pub struct ExThreadRng(rand::rngs::ThreadRng);

/// `rand::thread_rng` returns a handle to the calling thread's generator,
/// which the system seeds. Nothing is claimed of the handle. (The call
/// panics only where the system has no entropy to seed the generator.)
pub assume_specification[ rand::thread_rng ]() -> (rng: rand::rngs::ThreadRng)
;

/// `SliceRandom::shuffle` of `rand` on the cards of a vector. It only
/// swaps elements of the slice, so afterwards the vector holds the same
/// cards, each as often as before; their order is left open, since it
/// depends on the generator.
#[verifier::external_body]
fn shuffle(cards: &mut Vec<Card>, rng: &mut rand::rngs::ThreadRng)
    ensures
        final(cards)@.to_multiset() == old(cards)@.to_multiset(),
{
    cards.shuffle(rng);
}

/// An ordered pile of cards. The top of the pile is the end of the
/// sequence.
pub struct Deck(pub Vec<Card>);

impl View for Deck {
    type V = Seq<Card>;

    open spec fn view(&self) -> Seq<Card> {
        self.0@
    }
}

impl Deck {
    /// A fresh deck: every card of the 52-card domain exactly once, in an
    /// order that the thread's random generator picks. No card is missing
    /// and none occurs twice; which order comes out is not stated.
    pub fn new() -> (deck: Deck)
        ensures
            is_complete(deck@),
            deck@.to_multiset() == full_deck().to_multiset(),
            deck@.len() == 52,
            deck@.no_duplicates(),
    {
        let mut cards = all_cards();
        proof {
            lemma_full_deck_is_complete();
        }

        let mut rng = rand::thread_rng();
        shuffle(&mut cards, &mut rng);

        proof {
            lemma_complete_is_permutation(cards@);
        }
        Deck(cards)
    }

    /// Takes the top card off the deck. An empty deck gives `None` and
    /// stays empty.
    pub fn draw(&mut self) -> (card: Option<Card>)
        ensures
            old(self)@.len() == 0 ==> card.is_none() && final(self)@ == old(self)@,
            old(self)@.len() > 0 ==> card == Some(old(self)@.last()) && final(self)@ == old(
                self,
            )@.drop_last(),
    {
        self.0.pop()
    }
}

} // verus!
