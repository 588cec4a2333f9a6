//! The fight: the board, the two players, the scale and whose turn it is.

use crate::board::{slots_view, Board, BoardView, Lane, Slot, SlotView, LANES};
use crate::card::{cards_view_drop_last, Card, CardView};
use crate::dispatch::{
    activates_lane, activation_lanes, dispatches, draws, holder_at, is_card_run, is_draw,
    is_lane_run, is_pass, kept_sigils, slots_after, stage_at, stage_follows, starves,
    step_follows, Stage, Step,
};
use crate::player::{Player, PlayerID, PlayerView};
use crate::sigil::{Activation, Context, SigilEvent, SigilHandler};
use crate::Error;
use vstd::prelude::*;

verus! {

/// What a [`FightManager`] holds, as plain values.
pub struct FightView<S> {
    pub board: BoardView<S>,
    pub scale: int,
    pub first: PlayerView<S>,
    pub second: PlayerView<S>,
    pub active_player: PlayerID,
}

impl<S> FightView<S> {
    /// The hand and deck of `id`.
    pub open spec fn player(self, id: PlayerID) -> PlayerView<S> {
        match id {
            PlayerID::First => self.first,
            PlayerID::Second => self.second,
        }
    }

    /// The fight with `player` as the hand and deck of `id`.
    pub open spec fn with_player(self, id: PlayerID, player: PlayerView<S>) -> FightView<S> {
        match id {
            PlayerID::First => FightView { first: player, ..self },
            PlayerID::Second => FightView { second: player, ..self },
        }
    }

    /// The fight with `slot` in `lane`.
    pub open spec fn with_slot(self, lane: Lane, slot: SlotView<S>) -> FightView<S> {
        FightView { board: self.board.with_slot(lane, slot), ..self }
    }

    /// The slots of the board in the order in which a broadcast visits
    /// them, blank ones included.
    pub open spec fn activation_order(self) -> Seq<SlotView<S>> {
        Seq::new(
            2 * LANES as nat,
            |k: int| self.board.slot(activation_lanes(self.active_player)[k]),
        )
    }
}

/// The manager for a fight, the main entry point to simulate a game. The
/// methods of the manager broadcast the events they cause to the sigils on
/// the board.
///
/// The sigil type `S` implements [`SigilHandler`], which says how a sigil
/// resolves. Whenever a [`SigilEvent`] happens, each sigil on the board is
/// handed the event and the fight, which it may change. Sigils are activated
/// lane by lane, starting with the leftmost lane of the active player, from
/// that player's perspective, and on each card in the order in which the
/// card carries them; the other player's lanes follow, from that player's
/// perspective. All sigils are activated for every [`SigilEvent`].
pub struct FightManager<S: 'static> {
    /// The board used for this fight.
    pub board: Board<S>,
    /// The current state of the scale: a positive value is in favor of the
    /// first player, a negative one in favor of the second player.
    pub scale: isize,
    /// The two players, the first one first.
    pub player: (Player<S>, Player<S>),
    /// The player whose turn it is. Sigils are activated from this player's
    /// side of the board first.
    pub active_player: PlayerID,
}

impl<S> View for FightManager<S> {
    type V = FightView<S>;

    open spec fn view(&self) -> FightView<S> {
        FightView {
            board: self.board@,
            scale: self.scale as int,
            first: self.player.0@,
            second: self.player.1@,
            active_player: self.active_player,
        }
    }
}

/// The card behind `cause` as it is now, as plain values.
spec fn lent<S>(cause: &Option<&mut Card<S>>) -> Option<CardView<S>> {
    match cause {
        Some(card) => Some(card@),
        None => None,
    }
}

impl<S: Copy> Clone for FightManager<S> {
    fn clone(&self) -> (fight: Self)
        ensures
            fight@ == self@,
    {
        FightManager {
            board: self.board.clone(),
            scale: self.scale,
            player: (self.player.0.clone(), self.player.1.clone()),
            active_player: self.active_player,
        }
    }
}

impl<S: SigilHandler> FightManager<S> {
    /// A fight about to begin: an empty board, a level scale, two players
    /// without cards, and `active_player` to move first.
    pub fn new(active_player: PlayerID) -> (fight: Self)
        ensures
            fight@.board.well_formed(),
            fight@.board.is_blank(),
            fight@.scale == 0,
            fight@.first == (PlayerView::<S> { hand: Seq::empty(), decks: Seq::empty() }),
            fight@.second == (PlayerView::<S> { hand: Seq::empty(), decks: Seq::empty() }),
            fight@.active_player == active_player,
    {
        FightManager {
            board: Board::new(),
            scale: 0,
            player: (Player::new(), Player::new()),
            active_player,
        }
    }

    /// The hand and deck of `id`.
    pub fn player(&self, id: PlayerID) -> (player: &Player<S>)
        ensures
            player@ == self@.player(id),
    {
        match id {
            PlayerID::First => &self.player.0,
            PlayerID::Second => &self.player.1,
        }
    }

    /// The hand and deck of `id`, open to change.
    pub fn player_mut(&mut self, id: PlayerID) -> (player: &mut Player<S>)
        ensures
            player@ == old(self)@.player(id),
            final(self)@ == old(self)@.with_player(id, final(player)@),
    {
        match id {
            PlayerID::First => &mut self.player.0,
            PlayerID::Second => &mut self.player.1,
        }
    }

    /// Draw a card from the deck of `player`.
    ///
    /// The top card leaves the deck, [`SigilEvent::OnDraw`] is broadcast to
    /// the whole board with that card as its cause, and then the card, with
    /// what the sigils did to it, is put last into the hand of `player`.
    /// During the broadcast the card is neither in the deck nor in the
    /// hand.
    ///
    /// If the deck is empty, [`SigilEvent::OnPlayerStarve`] is broadcast
    /// without a cause and [`Error::PlayerStarve`] is returned; the draw
    /// itself then changes nothing.
    pub fn draw(&mut self, player: PlayerID) -> (r: Result<(), Error>)
        ensures
            old(self)@.player(player).decks.len() == 0 ==> {
                &&& r == Err::<(), Error>(Error::PlayerStarve)
                &&& starves(old(self)@, player, final(self)@)
            },
            old(self)@.player(player).decks.len() > 0 ==> {
                &&& r == Ok::<(), Error>(())
                &&& draws(old(self)@, player, final(self)@)
            },
    {
        let drawing = self.player_mut(player);
        let ghost decks = drawing.decks@;
        let drawn = drawing.decks.pop();
        proof {
            if decks.len() > 0 {
                cards_view_drop_last(decks);
                assert(decks.subrange(0, decks.len() - 1) == decks.drop_last());
            }
        }
        match drawn {
            None => {
                self.handle_sigils(SigilEvent::OnPlayerStarve(player), None);
                Err(Error::PlayerStarve)
            },
            Some(card) => {
                let mut card = card;
                self.handle_sigils(SigilEvent::OnDraw, Some(&mut card));
                let ghost broadcast = Stage { fight: self@, cause: Some(card@) };
                self.player_mut(player).draw(card);
                assert(is_draw(old(self)@, player, broadcast, self@));
                Ok(())
            },
        }
    }

    /// Broadcast `event`, caused by the card `cause` if a single card caused
    /// it: one pass over the board in which every sigil of every card is
    /// activated. Nothing else changes. The cause is lent to each
    /// activation in turn and comes back as the last one left it.
    ///
    /// The pass visits the lanes that [`activation_order`] lists with a
    /// card when the pass begins, in that order; what the pass does to the
    /// board changes neither. A lane that has become blank when the pass
    /// comes to it is skipped. A card is taken out of its lane while its
    /// sigils are activated: the sigils it carries are taken off it and
    /// activated one after the other, each in a place of its own, and then
    /// the card goes back into its lane carrying the sigils that are left
    /// in their places followed by the ones that the activations put on it.
    /// A sigil that is put on the card during the pass is therefore not
    /// activated in that pass, a sigil that empties its place is not on the
    /// card afterwards, and each sigil that the card carried is activated,
    /// whatever the others do.
    ///
    /// [`activation_order`]: FightManager::activation_order
    pub fn handle_sigils(&mut self, event: SigilEvent, mut cause: Option<&mut Card<S>>)
        ensures
            dispatches(
                (Stage {
                    fight: old(self)@,
                    cause: match cause {
                        Some(card) => Some(card@),
                        None => None,
                    },
                }),
                event,
                (Stage {
                    fight: final(self)@,
                    cause: match cause {
                        Some(card) => Some(final(card)@),
                        None => None,
                    },
                }),
            ),
    {
        let active = self.active_player;
        let order = self.activation_order();
        let ghost start = Stage { fight: self@, cause: lent(&cause) };
        let ghost end = match &cause {
            Some(card) => Some(final(*card)@),
            None => None,
        };
        let ghost mut stages: Seq<Stage<S>> = seq![start];
        let mut k: usize = 0;
        while k < 2 * LANES
            invariant
                k <= 2 * LANES,
                order@.len() == 2 * LANES,
                forall|j: int|
                    0 <= j < 2 * LANES ==> (#[trigger] order@[j])@
                        == start.fight.activation_order()[j],
                stages.len() == k + 1,
                stages[0] == start,
                stages[k as int] == (Stage { fight: self@, cause: lent(&cause) }),
                end == (match &cause {
                    Some(card) => Some(final(*card)@),
                    None => None,
                }),
                active == start.fight.active_player,
                forall|j: int| 0 <= j < k ==> #[trigger] stage_follows(start, event, stages, j),
            decreases 2 * LANES - k,
        {
            match &order[k] {
                Slot::Blank => {},
                Slot::Card(_) => {
                    let side = if k < LANES {
                        active
                    } else {
                        active.other()
                    };
                    let index = if k < LANES {
                        k
                    } else {
                        k - LANES
                    };
                    let lending = match &mut cause {
                        Some(card) => Some(&mut **card),
                        None => None,
                    };
                    self.activate_lane(side, index, event, lending);
                },
            }
            proof {
                let earlier = stages;
                stages = stages.push(Stage { fight: self@, cause: lent(&cause) });
                assert(stage_follows(start, event, stages, k as int));
                assert forall|j: int| 0 <= j < k implies #[trigger] stage_follows(
                    start,
                    event,
                    stages,
                    j,
                ) by {
                    assert(stage_follows(start, event, earlier, j));
                }
            }
            k += 1;
        }
        assert(is_pass(start, event, stages, Stage { fight: self@, cause: lent(&cause) }));
    }

    /// What a pass does in lane `index` of the row of `side` when it visits
    /// that lane.
    fn activate_lane(
        &mut self,
        side: PlayerID,
        index: usize,
        event: SigilEvent,
        mut cause: Option<&mut Card<S>>,
    )
        requires
            index < LANES,
        ensures
            activates_lane(
                (Stage {
                    fight: old(self)@,
                    cause: match cause {
                        Some(card) => Some(card@),
                        None => None,
                    },
                }),
                (Lane { side, index: index as int }),
                event,
                (Stage {
                    fight: final(self)@,
                    cause: match cause {
                        Some(card) => Some(final(card)@),
                        None => None,
                    },
                }),
            ),
    {
        let ghost lane = Lane { side, index: index as int };
        let ghost before = Stage { fight: self@, cause: lent(&cause) };
        let slot = self.board.replace(side, index, Slot::Blank);
        match slot {
            Slot::Blank => {
                assert(self@.board.first =~= old(self)@.board.first);
                assert(self@.board.second =~= old(self)@.board.second);
            },
            Slot::Card(card) => {
                let mut card = card;
                let ghost taken = card@;
                let ghost vacated = Stage { fight: self@, cause: lent(&cause) };
                let ghost end = match &cause {
                    Some(card) => Some(final(*card)@),
                    None => None,
                };
                let mut sigils: Vec<S> = Vec::new();
                core::mem::swap(&mut card.sigils, &mut sigils);
                let mut kept: Vec<S> = Vec::new();
                let ghost mut steps: Seq<Step<S>> = Seq::empty();
                let mut i: usize = 0;
                while i < sigils.len()
                    invariant
                        i <= sigils.len(),
                        sigils@ == taken.sigils,
                        steps.len() == i,
                        card@ == holder_at(taken, steps, i as int),
                        (Stage { fight: self@, cause: lent(&cause) }) == stage_at(
                            vacated,
                            steps,
                            i as int,
                        ),
                        end == (match &cause {
                            Some(card) => Some(final(*card)@),
                            None => None,
                        }),
                        kept@ == kept_sigils(slots_after(steps)),
                        forall|j: int|
                            0 <= j < i ==> #[trigger] step_follows(taken, vacated, event, steps, j),
                    decreases sigils.len() - i,
                {
                    let mut place = Some(sigils[i]);
                    let mut ctx = Context {
                        event,
                        cause: match &mut cause {
                            Some(card) => Some(&mut **card),
                            None => None,
                        },
                    };
                    let ghost found = Activation {
                        sigil: place,
                        holder: card@,
                        cause: ctx@.cause,
                        fight: self@,
                    };
                    S::handle_sigil(&mut place, &mut card, &mut ctx, self);
                    proof {
                        self.board.rows_have_four_lanes();
                        let earlier = steps;
                        let left = Activation {
                            sigil: place,
                            holder: card@,
                            cause: lent(&cause),
                            fight: self@,
                        };
                        steps = steps.push(Step { before: found, after: left });
                        assert(slots_after(steps) =~= slots_after(earlier).push(place));
                        assert(slots_after(steps).drop_last() =~= slots_after(earlier));
                        assert(step_follows(taken, vacated, event, steps, i as int));
                        assert forall|j: int| 0 <= j < i implies #[trigger] step_follows(
                            taken,
                            vacated,
                            event,
                            steps,
                            j,
                        ) by {
                            assert(step_follows(taken, vacated, event, earlier, j));
                        }
                    }
                    match place {
                        Some(sigil) => kept.push(sigil),
                        None => {},
                    }
                    i += 1;
                }
                assert(is_card_run(taken, vacated, event, steps));
                kept.append(&mut card.sigils);
                card.sigils = kept;
                let _ = self.board.replace(side, index, Slot::Card(card));
                assert(is_lane_run(
                    before,
                    lane,
                    taken,
                    event,
                    steps,
                    Stage { fight: self@, cause: lent(&cause) },
                ));
            },
        }
    }

    /// Return the slots of the board in the order in which their sigils are
    /// activated, blank slots included: the row of the active player from
    /// its leftmost lane to its rightmost, then the row of the other
    /// player, from that player's perspective. The board is left as it is,
    /// so asking again gives the same answer.
    pub fn activation_order(&self) -> (order: Vec<Slot<S>>)
        ensures
            order@.len() == 2 * LANES,
            forall|k: int|
                0 <= k < 2 * LANES ==> (#[trigger] order@[k])@ == self@.activation_order()[k],
            slots_view(order@) == self@.activation_order(),
    {
        let mut order: Vec<Slot<S>> = Vec::new();
        let mut k: usize = 0;
        while k < 2 * LANES
            invariant
                k <= 2 * LANES,
                order.len() == k,
                forall|j: int|
                    0 <= j < k ==> order@[j]@ == #[trigger] self@.activation_order()[j],
            decreases 2 * LANES - k,
        {
            let slot = if k < LANES {
                self.board.slot(self.active_player, k)
            } else {
                self.board.slot(self.active_player.other(), k - LANES)
            };
            order.push(slot.clone());
            k += 1;
        }
        assert(slots_view(order@) =~= self@.activation_order());
        order
    }
}

} // verus!
