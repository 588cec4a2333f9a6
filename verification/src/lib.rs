//! # Leshy
//!
//! A rule engine core for a two-player card duel fought on a board of fixed
//! lanes. Cards carry sigils, passive abilities that react to the events of
//! the game; the engine decides in which order they are activated and what
//! state each activation sees.
//!
//! The main type is the [`FightManager`]. Its methods broadcast the events
//! they cause; the methods of the smaller types, such as [`Player::draw`],
//! do not.

pub mod board;
pub mod card;
pub mod dispatch;
pub mod fight;
pub mod laws;
pub mod player;
pub mod sigil;

pub use board::{Board, BoardView, Lane, Slot, SlotView, LANES};
pub use card::{Card, CardData, CardDataView, CardView};
pub use fight::{FightManager, FightView};
pub use player::{Player, PlayerID, PlayerView};
pub use sigil::{Activation, Context, ContextView, SigilEvent, SigilHandler};

use vstd::prelude::*;

verus! {

/// What can go wrong in a fight.
#[derive(Clone, Copy, Debug, PartialEq, Eq, Structural)]
pub enum Error {
    /// A player tried to draw from an empty deck.
    PlayerStarve,
}

} // verus!
