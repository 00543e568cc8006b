//! The state machine of a round: the phases, the intents that move the
//! game from one phase to the next, and what holds in every game that
//! was begun with a fresh deck.

use crate::cards::{is_complete, lemma_complete_is_permutation, Card};
use crate::deck::Deck;
use crate::hand::{
    calculate_hand_value, hand_value, lemma_hand_value_bounds, lemma_small_hand_is_no_bust,
    lemma_totals_bounds, DealerHand, PlayerHand,
};
use vstd::prelude::*;

verus! {

/// The most cards that a game may hold. With no more than these, the hard
/// total of any hand (at most 11 points a card) fits in an `i32`.
pub const MAX_CARDS: usize = 195_225_786;

/// The phase of a game.
#[derive(Debug, Clone, Copy, PartialEq, Eq, Hash, Structural)]
pub enum GameState {
    Menu,
    PlayerTurn,
    DealerTurn,
    PlayerWon,
    DealerWon,
    Tie,
}

impl GameState {
    /// The round is over: one side has won, or it is a tie.
    pub open spec fn is_terminal(self) -> bool {
        self is PlayerWon || self is DealerWon || self is Tie
    }
}

/// What the player asks of the game.
#[derive(Debug, Clone, Copy, PartialEq, Eq, Hash, Structural)]
pub enum Intent {
    Start,
    Hit,
    Hold,
    Restart,
}

/// A game: its phase, the deck, and the two hands.
pub struct Game {
    pub game_state: GameState,
    pub deck: Deck,
    pub player_hand: PlayerHand,
    pub dealer_hand: DealerHand,
}

/// A game as plain values. The top of the deck is the end of `deck`; the
/// hands are in the order in which their cards were drawn.
pub struct GameView {
    pub phase: GameState,
    pub deck: Seq<Card>,
    pub player: Seq<Card>,
    pub dealer: Seq<Card>,
}

impl GameView {
    /// All cards of the game: the deck, then the player's hand, then the
    /// dealer's.
    pub open spec fn cards(self) -> Seq<Card> {
        self.deck + self.player + self.dealer
    }

    /// The game holds no more than `MAX_CARDS` cards.
    pub open spec fn wf(self) -> bool {
        self.deck.len() + self.player.len() + self.dealer.len() <= MAX_CARDS
    }

    /// What holds of every game that began with a fresh deck and was
    /// moved on by intents only. Each of the 52 cards is in exactly one
    /// place; in the menu no card is dealt; during the turns each side
    /// has its two cards and the player is not bust; and a finished round
    /// went to the side that the hands name.
    pub open spec fn inv(self) -> bool {
        let player = hand_value(self.player);
        let dealer = hand_value(self.dealer);
        &&& self.wf()
        &&& is_complete(self.cards())
        &&& match self.phase {
            GameState::Menu => self.player.len() == 0 && self.dealer.len() == 0,
            GameState::PlayerTurn | GameState::DealerTurn => {
                &&& self.player.len() >= 2
                &&& self.dealer.len() == 2
                &&& player <= 21
            },
            GameState::PlayerWon => {
                &&& self.player.len() >= 2
                &&& self.dealer.len() >= 2
                &&& player <= 21
                &&& dealer >= 17
                &&& (dealer > 21 || player > dealer)
            },
            GameState::DealerWon => {
                &&& self.player.len() >= 2
                &&& self.dealer.len() >= 2
                &&& (player > 21 || (17 <= dealer <= 21 && dealer > player))
            },
            GameState::Tie => {
                &&& self.player.len() >= 2
                &&& self.dealer.len() >= 2
                &&& 17 <= dealer <= 21
                &&& player == dealer
            },
        }
    }

    /// The top card of the deck goes to the player's hand. With an empty
    /// deck nothing changes.
    pub open spec fn player_hit(self) -> GameView {
        if self.deck.len() > 0 {
            GameView {
                deck: self.deck.drop_last(),
                player: self.player.push(self.deck.last()),
                ..self
            }
        } else {
            self
        }
    }

    /// The top card of the deck goes to the dealer's hand. With an empty
    /// deck nothing changes.
    pub open spec fn dealer_hit(self) -> GameView {
        if self.deck.len() > 0 {
            GameView {
                deck: self.deck.drop_last(),
                dealer: self.dealer.push(self.deck.last()),
                ..self
            }
        } else {
            self
        }
    }

    /// The game with its phase set to `phase`.
    pub open spec fn in_phase(self, phase: GameState) -> GameView {
        GameView { phase, ..self }
    }

    /// The start intent. In the menu, two cards go to each side, the
    /// player's first and then in turn, and the player's turn begins.
    /// Elsewhere nothing changes.
    pub open spec fn start(self) -> GameView {
        if self.phase is Menu {
            self.player_hit().dealer_hit().player_hit().dealer_hit().in_phase(
                GameState::PlayerTurn,
            )
        } else {
            self
        }
    }

    /// The hit intent. In the player's turn the player draws a card; a
    /// hand over 21 after that gives the round to the dealer at once.
    /// Elsewhere nothing changes.
    pub open spec fn hit(self) -> GameView {
        if self.phase is PlayerTurn {
            let drawn = self.player_hit();
            if hand_value(drawn.player) > 21 {
                drawn.in_phase(GameState::DealerWon)
            } else {
                drawn
            }
        } else {
            self
        }
    }

    /// The hold intent. It ends the player's turn and begins the
    /// dealer's. Elsewhere nothing changes.
    pub open spec fn hold(self) -> GameView {
        if self.phase is PlayerTurn {
            self.in_phase(GameState::DealerTurn)
        } else {
            self
        }
    }

    /// The dealer draws for as long as the dealer's hand is under 17 and
    /// the deck has a card.
    pub open spec fn dealer_draws(self) -> GameView
        decreases self.deck.len(),
    {
        if hand_value(self.dealer) < 17 && self.deck.len() > 0 {
            self.dealer_hit().dealer_draws()
        } else {
            self
        }
    }

    /// Who has won, by the hands as they are: the player if the dealer is
    /// bust or has less than the player, the dealer if the dealer has
    /// more, else nobody.
    pub open spec fn outcome(self) -> GameState {
        let player = hand_value(self.player);
        let dealer = hand_value(self.dealer);
        if dealer > 21 || player > dealer {
            GameState::PlayerWon
        } else if dealer > player {
            GameState::DealerWon
        } else {
            GameState::Tie
        }
    }

    /// The dealer's turn, which needs no intent: the dealer draws, and
    /// the round ends with the outcome of the two hands. In another phase
    /// nothing changes.
    pub open spec fn dealer_play(self) -> GameView {
        if self.phase is DealerTurn {
            let drawn = self.dealer_draws();
            drawn.in_phase(drawn.outcome())
        } else {
            self
        }
    }

    /// The restart intent. After a finished round the game is back in
    /// the menu with the deck `fresh` and two empty hands. Elsewhere
    /// nothing changes.
    pub open spec fn restart(self, fresh: Seq<Card>) -> GameView {
        if self.phase.is_terminal() {
            GameView {
                phase: GameState::Menu,
                deck: fresh,
                player: Seq::empty(),
                dealer: Seq::empty(),
            }
        } else {
            self
        }
    }

    /// One step of the game. The dealer's turn plays itself, whatever
    /// the intent. In the other phases the intent, if there is one, is
    /// carried out; `fresh` is the deck that a restart brings.
    pub open spec fn step(self, intent: Option<Intent>, fresh: Seq<Card>) -> GameView {
        if self.phase is DealerTurn {
            self.dealer_play()
        } else {
            match intent {
                Some(Intent::Start) => self.start(),
                Some(Intent::Hit) => self.hit(),
                Some(Intent::Hold) => self.hold(),
                Some(Intent::Restart) => self.restart(fresh),
                None => self,
            }
        }
    }
}

/// A draw moves a card from the deck to a hand: the game holds the same
/// cards after it as before.
pub proof fn lemma_hit_keeps_cards(game: GameView)
    ensures
        game.player_hit().cards().to_multiset() == game.cards().to_multiset(),
        game.dealer_hit().cards().to_multiset() == game.cards().to_multiset(),
        game.player_hit().wf() == game.wf(),
        game.dealer_hit().wf() == game.wf(),
        game.player_hit().phase == game.phase,
        game.dealer_hit().phase == game.phase,
{
    broadcast use vstd::seq_lib::group_to_multiset_ensures;

    if game.deck.len() > 0 {
        let top = game.deck.last();
        let rest = game.deck.drop_last();
        assert(game.deck =~= rest.push(top));
        vstd::seq_lib::lemma_multiset_commutative(game.deck, game.player);
        vstd::seq_lib::lemma_multiset_commutative(game.deck + game.player, game.dealer);
        vstd::seq_lib::lemma_multiset_commutative(rest, game.player.push(top));
        vstd::seq_lib::lemma_multiset_commutative(rest + game.player.push(top), game.dealer);
        vstd::seq_lib::lemma_multiset_commutative(rest, game.player);
        vstd::seq_lib::lemma_multiset_commutative(rest + game.player, game.dealer.push(top));
        assert(game.player_hit().cards().to_multiset() =~= game.cards().to_multiset());
        assert(game.dealer_hit().cards().to_multiset() =~= game.cards().to_multiset());
    }
}

/// In a game that holds the 52 cards, with a player who is not bust and a
/// dealer under 17, the deck is not empty: the hands hold 37 cards at
/// most.
pub proof fn lemma_deck_lasts(game: GameView)
    requires
        is_complete(game.cards()),
        hand_value(game.player) <= 21,
        hand_value(game.dealer) < 17,
    ensures
        game.deck.len() >= 15,
{
    lemma_complete_is_permutation(game.cards());
    lemma_hand_value_bounds(game.player);
    lemma_hand_value_bounds(game.dealer);
}

/// What the dealer's drawing comes to. The dealer's hand grows by cards
/// from the top of the deck, in the order in which they lay there, and
/// nothing else changes. The drawing stops only at 17 or over, or at an
/// empty deck; and before each card that was drawn the hand was under 17.
pub proof fn lemma_dealer_draws(game: GameView)
    ensures
        ({
            let end = game.dealer_draws();
            let drawn = game.deck.len() - end.deck.len();
            &&& end.phase == game.phase
            &&& end.player == game.player
            &&& 0 <= drawn <= game.deck.len()
            &&& end.deck == game.deck.take(end.deck.len() as int)
            &&& end.dealer == game.dealer + game.deck.skip(end.deck.len() as int).reverse()
            &&& end.cards().to_multiset() == game.cards().to_multiset()
            &&& end.wf() == game.wf()
            &&& (hand_value(end.dealer) >= 17 || end.deck.len() == 0)
            &&& forall|n: int|
                game.dealer.len() <= n < end.dealer.len() ==> hand_value(
                    #[trigger] end.dealer.take(n),
                ) < 17
        }),
    decreases game.deck.len(),
{
    let end = game.dealer_draws();
    if hand_value(game.dealer) < 17 && game.deck.len() > 0 {
        let next = game.dealer_hit();
        lemma_dealer_draws(next);
        lemma_hit_keeps_cards(game);
        let kept = end.deck.len() as int;
        assert(end.deck =~= game.deck.take(kept));
        assert(game.deck.skip(kept).reverse() =~= seq![game.deck.last()] + next.deck.skip(
            kept,
        ).reverse());
        assert(end.dealer =~= game.dealer + game.deck.skip(kept).reverse());
        assert forall|n: int| game.dealer.len() <= n < end.dealer.len() implies hand_value(
            #[trigger] end.dealer.take(n),
        ) < 17 by {
            if n == game.dealer.len() {
                assert(end.dealer.take(n) =~= game.dealer);
            }
        }
    } else {
        assert(game.deck.take(game.deck.len() as int) =~= game.deck);
        assert(game.deck.skip(game.deck.len() as int).reverse() =~= Seq::<Card>::empty());
        assert(game.dealer + Seq::<Card>::empty() =~= game.dealer);
    }
}

/// Every step leads from a game that satisfies `inv` to one that does,
/// whatever the intent, if the deck that a restart brings is complete.
pub proof fn lemma_step_keeps_inv(game: GameView, intent: Option<Intent>, fresh: Seq<Card>)
    requires
        game.inv(),
        is_complete(fresh),
    ensures
        game.start().inv(),
        game.hit().inv(),
        game.hold().inv(),
        game.dealer_play().inv(),
        game.restart(fresh).inv(),
        game.step(intent, fresh).inv(),
{
    lemma_start_deals(game);
    lemma_hit_stops_at_bust(game);
    lemma_dealer_play_settles(game);
    if game.phase.is_terminal() {
        assert(game.restart(fresh).cards() =~= fresh);
        lemma_complete_is_permutation(fresh);
    }
}

/// From the menu of a game that satisfies `inv`, the start intent deals
/// exactly two cards to each side, the four from the top of the deck in
/// turn, before the player's turn begins; the deck is left with 48.
pub proof fn lemma_start_deals(game: GameView)
    requires
        game.inv(),
    ensures
        game.start().inv(),
        game.phase is Menu ==> ({
            let began = game.start();
            &&& began.phase is PlayerTurn
            &&& began.player =~= seq![game.deck[51], game.deck[49]]
            &&& began.dealer =~= seq![game.deck[50], game.deck[48]]
            &&& began.deck =~= game.deck.take(48)
            &&& game.deck.len() == 52
        }),
{
    if game.phase is Menu {
        assert(game.cards() =~= game.deck);
        lemma_complete_is_permutation(game.deck);
        let g1 = game.player_hit();
        let g2 = g1.dealer_hit();
        let g3 = g2.player_hit();
        let g4 = g3.dealer_hit();
        lemma_hit_keeps_cards(game);
        lemma_hit_keeps_cards(g1);
        lemma_hit_keeps_cards(g2);
        lemma_hit_keeps_cards(g3);
        lemma_small_hand_is_no_bust(g4.player);
        assert(game.start().cards() == g4.cards());
    }
}

/// In a game that satisfies `inv` no hit is taken on a hand over 21: in
/// the player's turn the hand is at 21 or under, a hit that takes it over
/// 21 ends the round for the dealer at once, and in every other phase a
/// hit changes nothing.
pub proof fn lemma_hit_stops_at_bust(game: GameView)
    requires
        game.inv(),
    ensures
        game.hit().inv(),
        game.phase is PlayerTurn ==> hand_value(game.player) <= 21,
        game.phase is PlayerTurn && hand_value(game.hit().player) > 21 ==> game.hit().phase
            is DealerWon,
        !(game.phase is PlayerTurn) ==> game.hit() == game,
{
    lemma_hit_keeps_cards(game);
}

/// In a game that satisfies `inv` the dealer's turn never runs out of
/// cards: it ends with the dealer at 17 or over, and the round goes to
/// the side that the two hands name.
pub proof fn lemma_dealer_play_settles(game: GameView)
    requires
        game.inv(),
    ensures
        game.dealer_play().inv(),
        game.phase is DealerTurn ==> hand_value(game.dealer_play().dealer) >= 17,
{
    if game.phase is DealerTurn {
        let end = game.dealer_draws();
        lemma_dealer_draws(game);
        if hand_value(end.dealer) < 17 {
            lemma_deck_lasts(end);
        }
        assert(game.dealer_play().cards() == end.cards());
        assert(end.dealer.len() >= game.dealer.len());
    }
}

impl View for Game {
    type V = GameView;

    open spec fn view(&self) -> GameView {
        GameView {
            phase: self.game_state,
            deck: self.deck@,
            player: self.player_hand@,
            dealer: self.dealer_hand@,
        }
    }
}

impl Game {
    /// The game holds no more than `MAX_CARDS` cards.
    pub open spec fn wf(&self) -> bool {
        self@.wf()
    }

    /// The game is one that a fresh deck and intents alone can lead to.
    pub open spec fn inv(&self) -> bool {
        self@.inv()
    }

    /// A game in the menu, with `deck` and two empty hands.
    pub fn with_deck(deck: Deck) -> (game: Game)
        ensures
            game@ == (GameView {
                phase: GameState::Menu,
                deck: deck@,
                player: Seq::empty(),
                dealer: Seq::empty(),
            }),
            is_complete(deck@) ==> game.inv(),
    {
        let game = Game {
            game_state: GameState::Menu,
            deck,
            player_hand: PlayerHand(Vec::new()),
            dealer_hand: DealerHand(Vec::new()),
        };
        proof {
            if is_complete(deck@) {
                assert(game@.cards() =~= deck@);
                lemma_complete_is_permutation(deck@);
            }
        }
        game
    }

    /// A game in the menu, with a fresh deck and two empty hands.
    pub fn new() -> (game: Game)
        ensures
            game@.phase == GameState::Menu,
            game@.player.len() == 0,
            game@.dealer.len() == 0,
            is_complete(game@.deck),
            game.inv(),
    {
        Game::with_deck(Deck::new())
    }

    /// Draws a card into the player's hand, if the deck has one.
    pub fn player_hit(&mut self)
        ensures
            final(self)@ == old(self)@.player_hit(),
    {
        if let Some(card) = self.deck.draw() {
            self.player_hand.0.push(card);
        }
    }

    /// Draws a card into the dealer's hand, if the deck has one.
    pub fn dealer_hit(&mut self)
        ensures
            final(self)@ == old(self)@.dealer_hit(),
    {
        if let Some(card) = self.deck.draw() {
            self.dealer_hand.0.push(card);
        }
    }

    /// Value of the player's hand.
    pub fn calculate_player_value(&self) -> (value: i32)
        requires
            self.wf(),
        ensures
            value == hand_value(self@.player),
    {
        proof {
            lemma_totals_bounds(self@.player);
        }
        calculate_hand_value(&self.player_hand.0)
    }

    /// Value of the dealer's hand.
    pub fn calculate_dealer_value(&self) -> (value: i32)
        requires
            self.wf(),
        ensures
            value == hand_value(self@.dealer),
    {
        proof {
            lemma_totals_bounds(self@.dealer);
        }
        calculate_hand_value(&self.dealer_hand.0)
    }

    /// The start intent: see `GameView::start`. From the menu the player's
    /// turn begins with two cards on each side.
    pub fn start(&mut self)
        ensures
            final(self)@ == old(self)@.start(),
            old(self).wf() ==> final(self).wf(),
            old(self).inv() ==> final(self).inv(),
            old(self).inv() && old(self)@.phase is Menu ==> {
                &&& final(self)@.phase is PlayerTurn
                &&& final(self)@.player.len() == 2
                &&& final(self)@.dealer.len() == 2
                &&& final(self)@.deck.len() == old(self)@.deck.len() - 4
            },
    {
        proof {
            let view = self@;
            lemma_hit_keeps_cards(view);
            lemma_hit_keeps_cards(view.player_hit());
            lemma_hit_keeps_cards(view.player_hit().dealer_hit());
            lemma_hit_keeps_cards(view.player_hit().dealer_hit().player_hit());
            if view.inv() {
                lemma_start_deals(view);
            }
        }
        match self.game_state {
            GameState::Menu => {
                self.player_hit();
                self.dealer_hit();
                self.player_hit();
                self.dealer_hit();
                self.game_state = GameState::PlayerTurn;
            },
            _ => {},
        }
    }

    /// The hit intent: see `GameView::hit`. The player's turn goes on
    /// only with a hand of 21 or under; a bust ends the round for the
    /// dealer at once.
    pub fn hit(&mut self)
        requires
            old(self).wf(),
        ensures
            final(self)@ == old(self)@.hit(),
            final(self).wf(),
            old(self).inv() ==> final(self).inv(),
            old(self)@.phase is PlayerTurn ==> (final(self)@.phase is DealerWon <==> hand_value(
                final(self)@.player,
            ) > 21),
            old(self)@.phase is PlayerTurn ==> (final(self)@.phase is PlayerTurn <==> hand_value(
                final(self)@.player,
            ) <= 21),
    {
        proof {
            lemma_hit_keeps_cards(self@);
            if self@.inv() {
                lemma_hit_stops_at_bust(self@);
            }
        }
        match self.game_state {
            GameState::PlayerTurn => {
                self.player_hit();
                if self.calculate_player_value() > 21 {
                    self.game_state = GameState::DealerWon;
                }
            },
            _ => {},
        }
    }

    /// The hold intent: see `GameView::hold`.
    pub fn hold(&mut self)
        ensures
            final(self)@ == old(self)@.hold(),
            old(self).wf() ==> final(self).wf(),
            old(self).inv() ==> final(self).inv(),
    {
        match self.game_state {
            GameState::PlayerTurn => {
                self.game_state = GameState::DealerTurn;
            },
            _ => {},
        }
    }

    /// The dealer's turn: see `GameView::dealer_play`. The dealer draws
    /// while under 17 and never at 17 or over, then the round is settled.
    /// In a game that satisfies `inv` the deck cannot run out, so the
    /// dealer ends at 17 or over.
    pub fn dealer_play(&mut self)
        requires
            old(self).wf(),
        ensures
            final(self)@ == old(self)@.dealer_play(),
            final(self).wf(),
            old(self).inv() ==> final(self).inv(),
            old(self)@.phase is DealerTurn ==> {
                &&& final(self)@.phase.is_terminal()
                &&& final(self)@.phase == final(self)@.outcome()
                &&& final(self)@.player == old(self)@.player
                &&& final(self)@.deck == old(self)@.deck.take(final(self)@.deck.len() as int)
                &&& final(self)@.dealer == old(self)@.dealer + old(self)@.deck.skip(
                    final(self)@.deck.len() as int,
                ).reverse()
                &&& (hand_value(final(self)@.dealer) >= 17 || final(self)@.deck.len() == 0)
                &&& (old(self).inv() ==> hand_value(final(self)@.dealer) >= 17)
                &&& forall|n: int|
                    old(self)@.dealer.len() <= n < final(self)@.dealer.len() ==> hand_value(
                        #[trigger] final(self)@.dealer.take(n),
                    ) < 17
            },
    {
        proof {
            lemma_dealer_draws(self@);
            if self@.inv() {
                lemma_dealer_play_settles(self@);
            }
        }
        match self.game_state {
            GameState::DealerTurn => {
                while self.calculate_dealer_value() < 17 && self.deck.0.len() > 0
                    invariant
                        self.wf(),
                        self@.dealer_draws() == old(self)@.dealer_draws(),
                    decreases self@.deck.len(),
                {
                    proof {
                        lemma_hit_keeps_cards(self@);
                    }
                    self.dealer_hit();
                }

                let player_value = self.calculate_player_value();
                let dealer_value = self.calculate_dealer_value();

                if dealer_value > 21 || player_value > dealer_value {
                    self.game_state = GameState::PlayerWon;
                } else if dealer_value > player_value {
                    self.game_state = GameState::DealerWon;
                } else {
                    self.game_state = GameState::Tie;
                }
            },
            _ => {},
        }
    }

    /// The restart intent: see `GameView::restart`. After a finished
    /// round the game is back in the menu with two empty hands and a
    /// fresh deck of all 52 cards.
    pub fn restart(&mut self)
        ensures
            final(self)@ == old(self)@.restart(final(self)@.deck),
            old(self)@.phase.is_terminal() ==> {
                &&& final(self)@.phase is Menu
                &&& final(self)@.player.len() == 0
                &&& final(self)@.dealer.len() == 0
                &&& is_complete(final(self)@.deck)
                &&& final(self)@.deck.len() == 52
                &&& final(self).inv()
            },
            old(self).wf() ==> final(self).wf(),
            old(self).inv() ==> final(self).inv(),
    {
        match self.game_state {
            GameState::PlayerWon | GameState::DealerWon | GameState::Tie => {
                self.reset();
                self.game_state = GameState::Menu;
                proof {
                    assert(self@.cards() =~= self@.deck);
                    assert(self@.player =~= Seq::<Card>::empty());
                    assert(self@.dealer =~= Seq::<Card>::empty());
                }
            },
            _ => {},
        }
    }

    /// One step of the game: see `GameView::step`. The dealer's turn
    /// plays itself; in any other phase the intent, if there is one, is
    /// carried out, and one that the phase does not take changes
    /// nothing.
    pub fn step(&mut self, intent: Option<Intent>)
        requires
            old(self).wf(),
        ensures
            final(self)@ == old(self)@.step(intent, final(self)@.deck),
            final(self).wf(),
            old(self).inv() ==> final(self).inv(),
    {
        match self.game_state {
            GameState::DealerTurn => self.dealer_play(),
            _ => match intent {
                Some(Intent::Start) => self.start(),
                Some(Intent::Hit) => self.hit(),
                Some(Intent::Hold) => self.hold(),
                Some(Intent::Restart) => self.restart(),
                None => {},
            },
        }
    }

    /// Replaces the deck by a fresh one and empties both hands. The phase
    /// stays as it is.
    pub fn reset(&mut self)
        ensures
            final(self)@.phase == old(self)@.phase,
            is_complete(final(self)@.deck),
            final(self)@.deck.len() == 52,
            final(self)@.player.len() == 0,
            final(self)@.dealer.len() == 0,
    {
        self.deck = Deck::new();
        self.player_hand.0.clear();
        self.dealer_hand.0.clear();
    }
}

} // verus!
