//! The board: two rows of four lanes, one row per player.

use crate::card::{Card, CardView};
use crate::player::PlayerID;
use vstd::prelude::*;

verus! {

/// The number of lanes in a player's row.
pub const LANES: usize = 4;

/// What a [`Slot`] holds, as plain values.
pub enum SlotView<S> {
    Blank,
    Card(CardView<S>),
}

/// Representation of a slot used on the [`Board`].
pub enum Slot<S: 'static> {
    /// A blank slot with no card
    Blank,
    /// A slot with a card in it
    Card(Card<S>),
}

impl<S> View for Slot<S> {
    type V = SlotView<S>;

    open spec fn view(&self) -> SlotView<S> {
        match self {
            Slot::Blank => SlotView::Blank,
            Slot::Card(card) => SlotView::Card(card@),
        }
    }
}

impl<S: Copy> Clone for Slot<S> {
    fn clone(&self) -> (slot: Self)
        ensures
            slot@ == self@,
    {
        match self {
            Slot::Blank => Slot::Blank,
            Slot::Card(card) => Slot::Card(card.clone()),
        }
    }
}

/// The slots of a row as plain values, in the same order.
pub open spec fn slots_view<S>(slots: Seq<Slot<S>>) -> Seq<SlotView<S>> {
    Seq::new(slots.len(), |i: int| slots[i]@)
}

/// One place on the board: a lane of one player's row. Lanes are numbered
/// from 0 to 3, each row from its own player's left to right.
pub struct Lane {
    pub side: PlayerID,
    pub index: int,
}

impl Lane {
    /// The lane is one of the four of its row.
    pub open spec fn on_board(self) -> bool {
        0 <= self.index < LANES
    }

    /// The lane across the board. The two rows are numbered in opposite
    /// directions, so a player's leftmost lane faces the other player's
    /// rightmost one.
    pub open spec fn opposing(self) -> Lane {
        Lane { side: self.side.other(), index: LANES - 1 - self.index }
    }
}

/// What a [`Board`] holds, as plain values: two rows of four slots.
pub struct BoardView<S> {
    pub first: Seq<SlotView<S>>,
    pub second: Seq<SlotView<S>>,
}

impl<S> BoardView<S> {
    /// Each row has its four lanes.
    pub open spec fn well_formed(self) -> bool {
        self.first.len() == LANES && self.second.len() == LANES
    }

    /// The row of `side`, in that player's own numbering.
    pub open spec fn row(self, side: PlayerID) -> Seq<SlotView<S>> {
        match side {
            PlayerID::First => self.first,
            PlayerID::Second => self.second,
        }
    }

    /// What lies in `lane`.
    pub open spec fn slot(self, lane: Lane) -> SlotView<S>
        recommends
            lane.on_board(),
    {
        self.row(lane.side)[lane.index]
    }

    /// The board with `slot` in `lane` and every other lane as it was.
    pub open spec fn with_slot(self, lane: Lane, slot: SlotView<S>) -> BoardView<S>
        recommends
            lane.on_board(),
    {
        match lane.side {
            PlayerID::First => BoardView { first: self.first.update(lane.index, slot), ..self },
            PlayerID::Second => BoardView { second: self.second.update(lane.index, slot), ..self },
        }
    }

    /// No lane holds a card.
    pub open spec fn is_blank(self) -> bool {
        &&& forall|i: int| 0 <= i < self.first.len() ==> self.first[i] is Blank
        &&& forall|i: int| 0 <= i < self.second.len() ==> self.second[i] is Blank
    }
}

/// The two rows of slots of a fight.
///
/// [`first`](Board::first) and [`second`](Board::second) store the slots from
/// their respective player's perspective. When looking for the cards that
/// oppose each other the index is therefore reversed for the other player:
/// the first player's leftmost card (0) opposes the second player's
/// rightmost card (3).
#[allow(missing_docs)]
pub struct Board<S: 'static> {
    pub first: [Slot<S>; LANES],
    pub second: [Slot<S>; LANES],
}

impl<S> View for Board<S> {
    type V = BoardView<S>;

    open spec fn view(&self) -> BoardView<S> {
        BoardView { first: slots_view(self.first@), second: slots_view(self.second@) }
    }
}

impl<S: Copy> Clone for Board<S> {
    fn clone(&self) -> (board: Self)
        ensures
            board@ == self@,
    {
        let board = Board {
            first: [
                self.first[0].clone(),
                self.first[1].clone(),
                self.first[2].clone(),
                self.first[3].clone(),
            ],
            second: [
                self.second[0].clone(),
                self.second[1].clone(),
                self.second[2].clone(),
                self.second[3].clone(),
            ],
        };
        assert(board@.first =~= self@.first);
        assert(board@.second =~= self@.second);
        board
    }
}

impl<S> Board<S> {
    /// Create a new, empty [`Board`]. All slots are [`Slot::Blank`].
    pub fn new() -> (board: Self)
        ensures
            board@.well_formed(),
            board@.is_blank(),
    {
        Board {
            first: [Slot::Blank, Slot::Blank, Slot::Blank, Slot::Blank],
            second: [Slot::Blank, Slot::Blank, Slot::Blank, Slot::Blank],
        }
    }

    /// Every board has its two rows of four lanes: what is stated of
    /// well-formed boards holds of every [`Board`].
    pub proof fn rows_have_four_lanes(&self)
        ensures
            self@.well_formed(),
    {
    }

    /// The slot in lane `index` of the row of `side`.
    pub fn slot(&self, side: PlayerID, index: usize) -> (slot: &Slot<S>)
        requires
            index < LANES,
        ensures
            slot@ == self@.slot((Lane { side, index: index as int })),
    {
        match side {
            PlayerID::First => &self.first[index],
            PlayerID::Second => &self.second[index],
        }
    }

    /// The slot across the board from lane `index` of the row of `side`:
    /// lane `3 - index` of the other player's row.
    pub fn opposing(&self, side: PlayerID, index: usize) -> (slot: &Slot<S>)
        requires
            index < LANES,
        ensures
            slot@ == self@.slot((Lane { side, index: index as int }).opposing()),
    {
        self.slot(side.other(), LANES - 1 - index)
    }

    /// Put `slot` into lane `index` of the row of `side` and hand back what
    /// lay there.
    pub fn replace(&mut self, side: PlayerID, index: usize, slot: Slot<S>) -> (previous: Slot<S>)
        requires
            index < LANES,
        ensures
            previous@ == old(self)@.slot((Lane { side, index: index as int })),
            final(self)@ == old(self)@.with_slot((Lane { side, index: index as int }), slot@),
    {
        let mut slot = slot;
        match side {
            PlayerID::First => {
                core::mem::swap(&mut self.first[index], &mut slot);
                assert(slots_view(self.first@) =~= slots_view(old(self).first@).update(
                    index as int,
                    self.first@[index as int]@,
                ));
            },
            PlayerID::Second => {
                core::mem::swap(&mut self.second[index], &mut slot);
                assert(slots_view(self.second@) =~= slots_view(old(self).second@).update(
                    index as int,
                    self.second@[index as int]@,
                ));
            },
        }
        slot
    }
}

impl<S> Default for Board<S> {
    fn default() -> (board: Self)
        ensures
            board@.well_formed(),
            board@.is_blank(),
    {
        Self::new()
    }
}

} // verus!
