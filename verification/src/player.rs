//! Players: who they are, and the cards they hold outside the board.

use crate::card::{
    cards_view, cards_view_drop_last, cards_view_push, copy_cards, Card, CardView,
};
use crate::Error;
use vstd::prelude::*;

verus! {

/// Selects one of the two players of a fight.
#[derive(Clone, Copy, Debug, PartialEq, Eq, Structural, Default)]
#[allow(missing_docs)]
pub enum PlayerID {
    #[default]
    First,
    Second,
}

impl PlayerID {
    /// The player on the other side of the board.
    pub open spec fn spec_other(self) -> PlayerID {
        match self {
            PlayerID::First => PlayerID::Second,
            PlayerID::Second => PlayerID::First,
        }
    }

    /// The player on the other side of the board.
    #[verifier::when_used_as_spec(spec_other)]
    pub fn other(self) -> (r: PlayerID)
        ensures
            r == self.spec_other(),
    {
        match self {
            PlayerID::First => PlayerID::Second,
            PlayerID::Second => PlayerID::First,
        }
    }
}

/// A player's cards as plain sequences.
///
/// `hand` grows at its end: the last card of `hand` is the one drawn most
/// recently. `decks` is drawn from its end: the last card of `decks` is the
/// top of the deck, the next one to be drawn.
pub struct PlayerView<S> {
    pub hand: Seq<CardView<S>>,
    pub decks: Seq<CardView<S>>,
}

impl<S> PlayerView<S> {
    /// The card on top of the deck, the next one to be drawn.
    pub open spec fn top(self) -> CardView<S>
        recommends
            self.decks.len() > 0,
    {
        self.decks.last()
    }

    /// The player after `card` came into the hand.
    pub open spec fn with_card(self, card: CardView<S>) -> PlayerView<S> {
        PlayerView { hand: self.hand.push(card), decks: self.decks }
    }

    /// The player after the top card left the deck.
    pub open spec fn without_top(self) -> PlayerView<S>
        recommends
            self.decks.len() > 0,
    {
        PlayerView { hand: self.hand, decks: self.decks.drop_last() }
    }
}

/// Representation of a player.
pub struct Player<S: 'static> {
    /// The cards in the player's hand, the most recently drawn one last.
    pub hand: Vec<Card<S>>,
    /// The deck that the player has, its top card last.
    pub decks: Vec<Card<S>>,
}

impl<S> View for Player<S> {
    type V = PlayerView<S>;

    open spec fn view(&self) -> PlayerView<S> {
        PlayerView { hand: cards_view(self.hand@), decks: cards_view(self.decks@) }
    }
}

impl<S: Copy> Clone for Player<S> {
    fn clone(&self) -> (player: Self)
        ensures
            player@ == self@,
    {
        Player { hand: copy_cards(&self.hand), decks: copy_cards(&self.decks) }
    }
}

impl<S> Player<S> {
    /// A player with an empty hand and an empty deck.
    pub fn new() -> (p: Self)
        ensures
            p@.hand == Seq::<CardView<S>>::empty(),
            p@.decks == Seq::<CardView<S>>::empty(),
    {
        Player { hand: Vec::new(), decks: Vec::new() }
    }

    /// Add `card` to the player's hand. No ability is activated by this.
    ///
    /// To take the card from the player's own deck use
    /// [`draw_deck`](Player::draw_deck).
    pub fn draw(&mut self, card: Card<S>)
        ensures
            final(self)@ == old(self)@.with_card(card@),
    {
        proof {
            cards_view_push(self.hand@, card);
        }
        self.hand.push(card);
    }

    /// Move the top card of the player's deck into the hand. No ability is
    /// activated by this. An empty deck leaves the player unchanged and
    /// gives [`Error::PlayerStarve`].
    pub fn draw_deck(&mut self) -> (r: Result<(), Error>)
        ensures
            old(self)@.decks.len() == 0 ==> {
                &&& r == Err::<(), Error>(Error::PlayerStarve)
                &&& final(self)@ == old(self)@
            },
            old(self)@.decks.len() > 0 ==> {
                &&& r == Ok::<(), Error>(())
                &&& final(self)@ == old(self)@.without_top().with_card(old(self)@.top())
            },
    {
        proof {
            if self.decks@.len() > 0 {
                cards_view_drop_last(self.decks@);
                assert(self.decks@.subrange(0, self.decks@.len() - 1) == self.decks@.drop_last());
            }
        }
        match self.decks.pop() {
            None => Err(Error::PlayerStarve),
            Some(card) => {
                self.draw(card);
                Ok(())
            },
        }
    }
}

} // verus!
