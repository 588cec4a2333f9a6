//! What a broadcast of an event is: which sigils are activated, in which
//! order, and what each activation finds and leaves.
//!
//! A broadcast is one pass over the board. The pass visits, in a fixed
//! order, the lanes that hold a card when it begins and, in each of them
//! that still holds a card when the pass comes to it, activates the sigils
//! that the card carries at that moment, one after the other. What a single
//! activation does is up to the sigil ([`SigilHandler::activates`]);
//! everything around it is fixed here.

use crate::board::{Lane, SlotView, LANES};
use crate::card::CardView;
use crate::fight::FightView;
use crate::player::PlayerID;
use crate::sigil::{Activation, SigilEvent, SigilHandler};
use vstd::prelude::*;

verus! {

/// The lanes of the board in the order in which a pass visits them when
/// `active` is the active player: the lanes of `active` from 0 to 3, then
/// the lanes of the other player from 0 to 3, each row in its own player's
/// numbering.
pub open spec fn activation_lanes(active: PlayerID) -> Seq<Lane> {
    Seq::new(
        2 * LANES as nat,
        |k: int|
            if k < LANES {
                Lane { side: active, index: k }
            } else {
                Lane { side: active.other(), index: k - LANES }
            },
    )
}

/// What a broadcast works on: the fight, and the card that caused the
/// event, where a single card did. The cause is in no lane, hand or deck of
/// the fight while the event is broadcast.
pub struct Stage<S> {
    pub fight: FightView<S>,
    pub cause: Option<CardView<S>>,
}

/// One activation of one sigil: what it found and what it left.
pub struct Step<S> {
    pub before: Activation<S>,
    pub after: Activation<S>,
}

/// The card as the activation numbered `i` finds it. The first activation
/// finds the card with no sigils on it: those it carried have been taken
/// off to be activated. Each later one finds what the one before it left.
pub open spec fn holder_at<S>(card: CardView<S>, steps: Seq<Step<S>>, i: int) -> CardView<S> {
    if i <= 0 {
        card.with_sigils(Seq::empty())
    } else {
        steps[i - 1].after.holder
    }
}

/// The fight and the cause as the activation numbered `i` finds them:
/// `start` for the first one, and for each later one what the one before it
/// left.
pub open spec fn stage_at<S>(start: Stage<S>, steps: Seq<Step<S>>, i: int) -> Stage<S> {
    if i <= 0 {
        start
    } else {
        Stage { fight: steps[i - 1].after.fight, cause: steps[i - 1].after.cause }
    }
}

/// The step numbered `i` activates the sigil numbered `i` of those that
/// `card` carried, on the card, the cause and the fight as the steps before
/// it left them. It finds the sigil in its place, and it leaves a fight
/// with its four lanes a row and a cause where it found one.
pub open spec fn step_follows<S: SigilHandler>(
    card: CardView<S>,
    start: Stage<S>,
    event: SigilEvent,
    steps: Seq<Step<S>>,
    i: int,
) -> bool {
    &&& steps[i].before.sigil == Some(card.sigils[i])
    &&& steps[i].before.holder == holder_at(card, steps, i)
    &&& steps[i].before.fight == stage_at(start, steps, i).fight
    &&& steps[i].before.cause == stage_at(start, steps, i).cause
    &&& S::activates(steps[i].before, event, steps[i].after)
    &&& steps[i].after.fight.board.well_formed()
    &&& steps[i].after.cause is Some <==> steps[i].before.cause is Some
}

/// `steps` is an activation of `card`, taken out of its lane, from `start`:
/// one step for each sigil that the card carried when it was taken, in the
/// order in which it carried them, and no other step.
pub open spec fn is_card_run<S: SigilHandler>(
    card: CardView<S>,
    start: Stage<S>,
    event: SigilEvent,
    steps: Seq<Step<S>>,
) -> bool {
    &&& steps.len() == card.sigils.len()
    &&& forall|i: int|
        0 <= i < steps.len() ==> #[trigger] step_follows(card, start, event, steps, i)
}

/// The places of the sigils that were activated, each as its own activation
/// left it: with the sigil, with what the sigil turned into, or empty.
pub open spec fn slots_after<S>(steps: Seq<Step<S>>) -> Seq<Option<S>> {
    Seq::new(steps.len(), |i: int| steps[i].after.sigil)
}

/// The sigils that are left in `slots`, in the same order: the empty
/// places are passed over.
pub open spec fn kept_sigils<S>(slots: Seq<Option<S>>) -> Seq<S>
    decreases slots.len(),
{
    if slots.len() == 0 {
        Seq::empty()
    } else {
        match slots.last() {
            Some(sigil) => kept_sigils(slots.drop_last()).push(sigil),
            None => kept_sigils(slots.drop_last()),
        }
    }
}

/// The card that goes back into its lane after `steps`: the card as the
/// last step left it, carrying the sigils that were activated and are left
/// in their places, followed by those that the steps put on the card.
pub open spec fn card_after<S>(card: CardView<S>, steps: Seq<Step<S>>) -> CardView<S> {
    let holder = holder_at(card, steps, steps.len() as int);
    holder.with_sigils(kept_sigils(slots_after(steps)) + holder.sigils)
}

/// The fight and the cause as the last of `steps` left them.
pub open spec fn stage_after<S>(start: Stage<S>, steps: Seq<Step<S>>) -> Stage<S> {
    stage_at(start, steps, steps.len() as int)
}

/// `steps` is what a pass does in `lane`, which holds `card`: the card is
/// taken out of the lane, its sigils are activated, and it is put back into
/// the lane, over whatever the steps may have put there.
pub open spec fn is_lane_run<S: SigilHandler>(
    before: Stage<S>,
    lane: Lane,
    card: CardView<S>,
    event: SigilEvent,
    steps: Seq<Step<S>>,
    after: Stage<S>,
) -> bool {
    let vacated = Stage { fight: before.fight.with_slot(lane, SlotView::Blank), ..before };
    let left = stage_after(vacated, steps);
    &&& is_card_run(card, vacated, event, steps)
    &&& after == (Stage {
        fight: left.fight.with_slot(lane, SlotView::Card(card_after(card, steps))),
        ..left
    })
}

/// What a pass does in a lane that it visits: nothing if the lane is blank
/// by then, an activation of the card in it otherwise.
pub open spec fn activates_lane<S: SigilHandler>(
    before: Stage<S>,
    lane: Lane,
    event: SigilEvent,
    after: Stage<S>,
) -> bool {
    match before.fight.board.slot(lane) {
        SlotView::Blank => after == before,
        SlotView::Card(card) => exists|steps: Seq<Step<S>>|
            is_lane_run(before, lane, card, event, steps, after),
    }
}

/// The stage numbered `k + 1` is what the pass that began in `before` makes
/// of the stage numbered `k` in the lane numbered `k` of its order. The
/// order is that of the player who was active in `before`. A lane that was
/// blank in `before` is passed over, whatever has come into it since; a
/// lane that held a card in `before` is visited, and skipped only if it is
/// blank by then.
pub open spec fn stage_follows<S: SigilHandler>(
    before: Stage<S>,
    event: SigilEvent,
    stages: Seq<Stage<S>>,
    k: int,
) -> bool {
    let lane = activation_lanes(before.fight.active_player)[k];
    match before.fight.board.slot(lane) {
        SlotView::Blank => stages[k + 1] == stages[k],
        SlotView::Card(_) => activates_lane(stages[k], lane, event, stages[k + 1]),
    }
}

/// `stages` are the states of a pass from `before` to `after`: the fight
/// and the cause as the pass finds them, and then after each of the eight
/// lanes in turn. Which lanes the pass visits, and in which order, is
/// settled when it begins, whatever it then does to the fight.
pub open spec fn is_pass<S: SigilHandler>(
    before: Stage<S>,
    event: SigilEvent,
    stages: Seq<Stage<S>>,
    after: Stage<S>,
) -> bool {
    &&& stages.len() == 2 * LANES + 1
    &&& stages[0] == before
    &&& stages[2 * LANES as int] == after
    &&& forall|k: int| 0 <= k < 2 * LANES ==> #[trigger] stage_follows(before, event, stages, k)
}

/// A broadcast of `event` may take the fight and the cause from `before` to
/// `after`.
pub open spec fn dispatches<S: SigilHandler>(
    before: Stage<S>,
    event: SigilEvent,
    after: Stage<S>,
) -> bool {
    exists|stages: Seq<Stage<S>>| is_pass(before, event, stages, after)
}

/// A fight in which `player` finds the deck empty may go from `before` to
/// `after`: that the player starves is broadcast, without a cause.
pub open spec fn starves<S: SigilHandler>(
    before: FightView<S>,
    player: PlayerID,
    after: FightView<S>,
) -> bool {
    dispatches(
        Stage { fight: before, cause: None },
        SigilEvent::OnPlayerStarve(player),
        Stage { fight: after, cause: None },
    )
}

/// The fight in which the card on top of the deck of `player` has left the
/// deck and is the cause of what is broadcast next.
pub open spec fn drawn<S>(before: FightView<S>, player: PlayerID) -> Stage<S> {
    Stage {
        fight: before.with_player(player, before.player(player).without_top()),
        cause: Some(before.player(player).top()),
    }
}

/// A draw by `player` from a deck that is not empty takes the fight from
/// `before` to `after`, with `broadcast` what the broadcast of the draw
/// left: the top card leaves the deck, the draw is broadcast with that card
/// as its cause while the card is neither in the deck nor in the hand, and
/// then the card, as the broadcast left it, is put last into the hand.
pub open spec fn is_draw<S: SigilHandler>(
    before: FightView<S>,
    player: PlayerID,
    broadcast: Stage<S>,
    after: FightView<S>,
) -> bool {
    &&& dispatches(drawn(before, player), SigilEvent::OnDraw, broadcast)
    &&& broadcast.cause matches Some(card)
    &&& after == broadcast.fight.with_player(
        player,
        broadcast.fight.player(player).with_card(card),
    )
}

/// A draw by `player` from a deck that is not empty may take the fight from
/// `before` to `after`.
pub open spec fn draws<S: SigilHandler>(
    before: FightView<S>,
    player: PlayerID,
    after: FightView<S>,
) -> bool {
    exists|broadcast: Stage<S>| is_draw(before, player, broadcast, after)
}

} // verus!
