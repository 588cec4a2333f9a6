//! What holds of every broadcast and of every draw, whatever the sigils of
//! the game do.

use crate::board::{Lane, SlotView, LANES};
use crate::card::CardView;
use crate::dispatch::{
    activates_lane, activation_lanes, card_after, dispatches, drawn, draws, holder_at,
    is_card_run, is_draw, is_lane_run, is_pass, kept_sigils, slots_after, stage_after, stage_at,
    stage_follows, starves, step_follows, Stage, Step,
};
use crate::fight::FightView;
use crate::player::{PlayerID, PlayerView};
use crate::sigil::{Activation, SigilEvent, SigilHandler};
use vstd::prelude::*;

verus! {

/// The two rows face each other with their numbering reversed: across from
/// lane `i` of one player lies lane `3 - i` of the other. A lane of the
/// board has a lane of the board across from it, and across from that one
/// lies the lane itself.
pub proof fn opposing_lanes_face_each_other(lane: Lane)
    requires
        lane.on_board(),
    ensures
        lane.opposing().on_board(),
        lane.opposing().side == lane.side.other(),
        lane.opposing().index == LANES - 1 - lane.index,
        lane.opposing().opposing() == lane,
{
}

/// Where a pass comes to `lane` when `active` is the active player: the
/// lanes of `active` hold the places 0 to 3, those of the other player the
/// places 4 to 7.
pub open spec fn place_of(active: PlayerID, lane: Lane) -> int {
    if lane.side == active {
        lane.index
    } else {
        LANES + lane.index
    }
}

/// The order of activation is a total order of the lanes of the board. It
/// begins with the four lanes of the active player, from 0 to 3, and goes
/// on with the four lanes of the other player, from 0 to 3; every lane of
/// the board has its place in it, and no lane has two.
pub proof fn activation_order_is_total(active: PlayerID)
    ensures
        activation_lanes(active).len() == 2 * LANES,
        forall|i: int|
            0 <= i < LANES ==> #[trigger] activation_lanes(active)[i] == (Lane {
                side: active,
                index: i,
            }),
        forall|i: int|
            0 <= i < LANES ==> #[trigger] activation_lanes(active)[LANES + i] == (Lane {
                side: active.other(),
                index: i,
            }),
        forall|lane: Lane|
            lane.on_board() ==> 0 <= #[trigger] place_of(active, lane) < 2 * LANES
                && activation_lanes(active)[place_of(active, lane)] == lane,
        forall|k: int|
            0 <= k < 2 * LANES ==> (#[trigger] activation_lanes(active)[k]).on_board() && place_of(
                active,
                activation_lanes(active)[k],
            ) == k,
{
}

/// The slots that [`FightView::activation_order`] lists are those of the
/// board, lane by lane in the order of activation: the row of the active
/// player, then the row of the other player, and so every slot of the board
/// once, at the place of its lane. What it lists depends on the board and
/// on the active player alone.
pub proof fn activation_order_follows_lanes<S>(fight: FightView<S>)
    ensures
        fight.activation_order().len() == 2 * LANES,
        forall|i: int|
            0 <= i < LANES ==> #[trigger] fight.activation_order()[i] == fight.board.row(
                fight.active_player,
            )[i],
        forall|i: int|
            0 <= i < LANES ==> #[trigger] fight.activation_order()[LANES + i] == fight.board.row(
                fight.active_player.other(),
            )[i],
        forall|lane: Lane|
            lane.on_board() ==> fight.activation_order()[#[trigger] place_of(
                fight.active_player,
                lane,
            )] == fight.board.slot(lane),
{
}

/// A pass goes through the order of activation as it stood when the pass
/// began, and each lane begins where the lane before it ended. A lane that
/// the order lists as blank is passed over. In a lane that the order lists
/// with a card, the card that the lane holds by then has its sigils
/// activated; if the lane is blank by then, it is skipped.
pub proof fn pass_follows_activation_order<S: SigilHandler>(
    before: Stage<S>,
    event: SigilEvent,
    stages: Seq<Stage<S>>,
    after: Stage<S>,
    k: int,
)
    requires
        is_pass(before, event, stages, after),
        0 <= k < 2 * LANES,
    ensures
        before.fight.activation_order()[k] is Blank ==> stages[k + 1] == stages[k],
        before.fight.activation_order()[k] is Card ==> activates_lane(
            stages[k],
            activation_lanes(before.fight.active_player)[k],
            event,
            stages[k + 1],
        ),
        stages[k].fight.board.slot(activation_lanes(before.fight.active_player)[k]) is Blank
            ==> stages[k + 1] == stages[k],
{
    assert(stage_follows(before, event, stages, k));
}

/// While a card's sigils are activated, each sigil that the card carried
/// when it was taken out of its lane gets its own activation, in the order
/// in which the card carried them, and nothing else is activated. This
/// holds whatever the activations do: the first one finds no sigil on the
/// card, and what any of them puts on the card, takes off it or does to
/// its own place changes neither the number of the activations nor the
/// sigil that each one activates.
pub proof fn carried_sigils_are_all_activated<S: SigilHandler>(
    card: CardView<S>,
    start: Stage<S>,
    event: SigilEvent,
    steps: Seq<Step<S>>,
)
    requires
        is_card_run(card, start, event, steps),
    ensures
        steps.len() == card.sigils.len(),
        forall|i: int|
            0 <= i < steps.len() ==> (#[trigger] steps[i]).before.sigil == Some(card.sigils[i]),
        steps.len() > 0 ==> steps[0].before.holder.sigils == Seq::<S>::empty(),
        forall|i: int|
            0 <= i < steps.len() ==> steps[i].before.holder == #[trigger] holder_at(card, steps, i),
{
    assert forall|i: int| 0 <= i < steps.len() implies (#[trigger] steps[i]).before.sigil == Some(
        card.sigils[i],
    ) by {
        assert(step_follows(card, start, event, steps, i));
    }
    if steps.len() > 0 {
        assert(step_follows(card, start, event, steps, 0));
    }
    assert forall|i: int| 0 <= i < steps.len() implies steps[i].before.holder
        == #[trigger] holder_at(card, steps, i) by {
        assert(step_follows(card, start, event, steps, i));
    }
}

/// The sigils left in two rows of places, one after the other, are those
/// left in the first followed by those left in the second.
pub proof fn kept_sigils_of_two_rows<S>(front: Seq<Option<S>>, back: Seq<Option<S>>)
    ensures
        kept_sigils(front + back) == kept_sigils(front) + kept_sigils(back),
    decreases back.len(),
{
    if back.len() == 0 {
        assert(front + back =~= front);
        assert(kept_sigils(front) + kept_sigils(back) =~= kept_sigils(front));
    } else {
        kept_sigils_of_two_rows(front, back.drop_last());
        assert((front + back).drop_last() =~= front + back.drop_last());
        assert((front + back).last() == back.last());
        match back.last() {
            Some(sigil) => {
                assert(kept_sigils(front) + kept_sigils(back.drop_last()).push(sigil) =~= (
                kept_sigils(front) + kept_sigils(back.drop_last())).push(sigil));
            },
            None => {},
        }
    }
}

/// Where every place still holds its sigil, the sigils left are those of
/// the places, one for one.
pub proof fn kept_sigils_of_full_places<S>(slots: Seq<Option<S>>)
    requires
        forall|i: int| 0 <= i < slots.len() ==> (#[trigger] slots[i]) is Some,
    ensures
        kept_sigils(slots).len() == slots.len(),
        forall|i: int| 0 <= i < slots.len() ==> Some(#[trigger] kept_sigils(slots)[i]) == slots[i],
    decreases slots.len(),
{
    if slots.len() > 0 {
        let rest = slots.drop_last();
        assert forall|i: int| 0 <= i < rest.len() implies (#[trigger] rest[i]) is Some by {
            assert(slots[i] is Some);
        }
        kept_sigils_of_full_places(rest);
        assert(slots.last() == slots[slots.len() - 1]);
        assert forall|i: int| 0 <= i < slots.len() implies Some(#[trigger] kept_sigils(slots)[i])
            == slots[i] by {
            if i < rest.len() {
                assert(kept_sigils(rest)[i] == kept_sigils(slots)[i]);
                assert(rest[i] == slots[i]);
            }
        }
    }
}

/// An empty place leaves no sigil: the sigils left are those that would be
/// left had the place not been there. A place that holds a sigil leaves
/// that sigil, after the ones left before it and before the ones left after
/// it.
pub proof fn kept_sigils_place_by_place<S>(slots: Seq<Option<S>>, i: int)
    requires
        0 <= i < slots.len(),
    ensures
        slots[i] is None ==> kept_sigils(slots) == kept_sigils(slots.remove(i)),
        slots[i] matches Some(sigil) ==> kept_sigils(slots) == kept_sigils(slots.take(i)).push(
            sigil,
        ) + kept_sigils(slots.skip(i + 1)),
        kept_sigils(slots.remove(i)) == kept_sigils(slots.take(i)) + kept_sigils(
            slots.skip(i + 1),
        ),
{
    let front = slots.take(i);
    let back = slots.skip(i + 1);
    let place = seq![slots[i]];
    assert(slots =~= front + place + back);
    assert(slots.remove(i) =~= front + back);
    kept_sigils_of_two_rows(front, place);
    kept_sigils_of_two_rows(front + place, back);
    kept_sigils_of_two_rows(front, back);
    reveal_with_fuel(kept_sigils, 2);
    assert(place.drop_last() =~= Seq::<Option<S>>::empty());
    assert(place.last() == slots[i]);
    match slots[i] {
        Some(sigil) => {
            assert(kept_sigils(place) =~= seq![sigil]);
            assert(kept_sigils(front) + kept_sigils(place) =~= kept_sigils(front).push(sigil));
        },
        None => {
            assert(kept_sigils(place) =~= Seq::<S>::empty());
            assert(kept_sigils(front) + kept_sigils(place) =~= kept_sigils(front));
        },
    }
}

/// The card that goes back into its lane carries the sigils that were
/// activated and are left in their places, each as its own activation left
/// it, followed by the sigils that the activations put on the card and left
/// there. The next time the card's sigils are activated (`next` is any such
/// time) these are the sigils that are activated, in this order, and no
/// others.
pub proof fn card_goes_back_with_the_sigils_left<S: SigilHandler>(
    card: CardView<S>,
    start: Stage<S>,
    event: SigilEvent,
    steps: Seq<Step<S>>,
    next_start: Stage<S>,
    next_event: SigilEvent,
    next: Seq<Step<S>>,
)
    requires
        is_card_run(card, start, event, steps),
        is_card_run(card_after(card, steps), next_start, next_event, next),
    ensures
        ({
            let left = kept_sigils(slots_after(steps));
            let put_on = holder_at(card, steps, steps.len() as int).sigils;
            &&& card_after(card, steps).sigils == left + put_on
            &&& next.len() == left.len() + put_on.len()
            &&& forall|j: int|
                0 <= j < left.len() ==> (#[trigger] next[j]).before.sigil == Some(left[j])
            &&& forall|j: int|
                0 <= j < put_on.len() ==> (#[trigger] next[left.len() + j]).before.sigil == Some(
                    put_on[j],
                )
        }),
{
    let left = kept_sigils(slots_after(steps));
    let put_on = holder_at(card, steps, steps.len() as int).sigils;
    let after = card_after(card, steps);
    assert(after.sigils == left + put_on);
    assert forall|j: int| 0 <= j < left.len() implies (#[trigger] next[j]).before.sigil == Some(
        left[j],
    ) by {
        assert(step_follows(after, next_start, next_event, next, j));
    }
    assert forall|j: int| 0 <= j < put_on.len() implies (#[trigger] next[left.len()
        + j]).before.sigil == Some(put_on[j]) by {
        assert(step_follows(after, next_start, next_event, next, left.len() + j));
    }
}

/// A sigil that takes itself off its card while it is activated does not
/// keep its siblings from being activated in the same pass, and it is not
/// on the card afterwards. Let the step numbered `i` leave its place empty.
/// There is still one step for each sigil that the card carried. The card
/// goes back carrying what it would carry had that place not been there,
/// which is fewer sigils than there were steps and sigils put on, and the
/// next time the card's sigils are activated (`next` is any such time)
/// there is no activation for that place: the activations are those of the
/// sigils left in the other places, followed by those put on the card.
pub proof fn sigil_that_removes_itself_is_gone<S: SigilHandler>(
    card: CardView<S>,
    start: Stage<S>,
    event: SigilEvent,
    steps: Seq<Step<S>>,
    i: int,
    next_start: Stage<S>,
    next_event: SigilEvent,
    next: Seq<Step<S>>,
)
    requires
        is_card_run(card, start, event, steps),
        0 <= i < steps.len(),
        steps[i].after.sigil is None,
        is_card_run(card_after(card, steps), next_start, next_event, next),
    ensures
        steps.len() == card.sigils.len(),
        ({
            let others = kept_sigils(slots_after(steps).remove(i));
            let put_on = holder_at(card, steps, steps.len() as int).sigils;
            &&& others == kept_sigils(slots_after(steps).take(i)) + kept_sigils(
                slots_after(steps).skip(i + 1),
            )
            &&& others.len() < steps.len()
            &&& card_after(card, steps).sigils == others + put_on
            &&& next.len() == others.len() + put_on.len()
            &&& forall|j: int|
                0 <= j < next.len() ==> (#[trigger] next[j]).before.sigil == Some(
                    (others + put_on)[j],
                )
        }),
{
    let slots = slots_after(steps);
    kept_sigils_place_by_place(slots, i);
    kept_sigils_are_no_more_than_places(slots.remove(i));
    let after = card_after(card, steps);
    assert forall|j: int| 0 <= j < next.len() implies (#[trigger] next[j]).before.sigil == Some(
        after.sigils[j],
    ) by {
        assert(step_follows(after, next_start, next_event, next, j));
    }
}

/// No more sigils are left than there are places.
pub proof fn kept_sigils_are_no_more_than_places<S>(slots: Seq<Option<S>>)
    ensures
        kept_sigils(slots).len() <= slots.len(),
    decreases slots.len(),
{
    if slots.len() > 0 {
        kept_sigils_are_no_more_than_places(slots.drop_last());
    }
}

/// Where a sigil takes itself off its card and each of its siblings stays
/// in its place, the card goes back carrying the siblings, each as its own
/// activation left it and in the order in which the card carried them,
/// followed by the sigils put on the card.
pub proof fn siblings_of_a_removed_sigil_stay<S: SigilHandler>(
    card: CardView<S>,
    start: Stage<S>,
    event: SigilEvent,
    steps: Seq<Step<S>>,
    i: int,
)
    requires
        is_card_run(card, start, event, steps),
        0 <= i < steps.len(),
        steps[i].after.sigil is None,
        forall|j: int| 0 <= j < steps.len() && j != i ==> (#[trigger] steps[j]).after.sigil is Some,
    ensures
        ({
            let put_on = holder_at(card, steps, steps.len() as int).sigils;
            let carried = card_after(card, steps).sigils;
            &&& carried.len() == steps.len() - 1 + put_on.len()
            &&& forall|j: int| 0 <= j < i ==> Some(#[trigger] carried[j]) == steps[j].after.sigil
            &&& forall|j: int|
                i <= j < steps.len() - 1 ==> Some(#[trigger] carried[j]) == steps[j
                    + 1].after.sigil
            &&& forall|j: int|
                0 <= j < put_on.len() ==> #[trigger] carried[steps.len() - 1 + j] == put_on[j]
        }),
{
    let slots = slots_after(steps);
    let others = slots.remove(i);
    kept_sigils_place_by_place(slots, i);
    assert forall|j: int| 0 <= j < others.len() implies (#[trigger] others[j]) is Some by {
        if j < i {
            assert(steps[j].after.sigil is Some);
        } else {
            assert(steps[j + 1].after.sigil is Some);
        }
    }
    kept_sigils_of_full_places(others);
    let carried = card_after(card, steps).sigils;
    assert forall|j: int| 0 <= j < i implies Some(#[trigger] carried[j])
        == steps[j].after.sigil by {
        assert(Some(kept_sigils(others)[j]) == others[j]);
    }
    assert forall|j: int| i <= j < steps.len() - 1 implies Some(#[trigger] carried[j]) == steps[j
        + 1].after.sigil by {
        assert(Some(kept_sigils(others)[j]) == others[j]);
    }
}

/// A sigil that is put on a card while the card's sigils are activated is
/// not activated then: the activations are those of the sigils that the
/// card carried before. The card goes back into its lane carrying, after
/// the sigils left in their places, the sigils that the activations put on
/// it and left there. The next time the card's sigils are activated (`next`
/// is any such time) each of these is activated too, after the ones before
/// it.
pub proof fn sigils_put_on_a_card_wait_for_the_next_pass<S: SigilHandler>(
    card: CardView<S>,
    start: Stage<S>,
    event: SigilEvent,
    steps: Seq<Step<S>>,
    next_start: Stage<S>,
    next_event: SigilEvent,
    next: Seq<Step<S>>,
)
    requires
        is_card_run(card, start, event, steps),
        is_card_run(card_after(card, steps), next_start, next_event, next),
    ensures
        steps.len() == card.sigils.len(),
        ({
            let left = kept_sigils(slots_after(steps));
            let put_on = holder_at(card, steps, steps.len() as int).sigils;
            &&& card_after(card, steps).sigils.len() == left.len() + put_on.len()
            &&& forall|j: int|
                0 <= j < put_on.len() ==> #[trigger] card_after(card, steps).sigils[left.len() + j]
                    == put_on[j]
            &&& next.len() == left.len() + put_on.len()
            &&& forall|j: int|
                0 <= j < put_on.len() ==> (#[trigger] next[left.len() + j]).before.sigil == Some(
                    put_on[j],
                )
        }),
{
    card_goes_back_with_the_sigils_left(card, start, event, steps, next_start, next_event, next);
}

/// The card that caused the event is lent to one activation after the
/// other: each finds it as the one before left it, the first as it was
/// lent, and it comes back as the last activation left it.
pub proof fn cause_is_lent_from_step_to_step<S: SigilHandler>(
    card: CardView<S>,
    start: Stage<S>,
    event: SigilEvent,
    steps: Seq<Step<S>>,
)
    requires
        is_card_run(card, start, event, steps),
    ensures
        forall|i: int|
            0 <= i < steps.len() ==> steps[i].before.cause == (#[trigger] stage_at(
                start,
                steps,
                i,
            )).cause,
        stage_at(start, steps, 0).cause == start.cause,
        forall|i: int|
            0 < i <= steps.len() ==> (#[trigger] stage_at(start, steps, i)).cause == steps[i
                - 1].after.cause,
        stage_after(start, steps).cause == stage_at(start, steps, steps.len() as int).cause,
{
    assert forall|i: int| 0 <= i < steps.len() implies steps[i].before.cause
        == (#[trigger] stage_at(start, steps, i)).cause by {
        assert(step_follows(card, start, event, steps, i));
    }
}

/// A broadcast that a sigil starts while it is activated is over before
/// anything else of the broadcast around it happens. Let the sigil of the
/// step numbered `i` be one that broadcasts `nested`, without a cause,
/// whenever it is activated for `event`. Then the fight as that step leaves
/// it is the fight at the end of a whole broadcast of `nested`, and it is
/// from there that the outer broadcast goes on: with the next sigil of the
/// card, or, after the last one, with putting the card back and the next
/// lane.
pub proof fn nested_broadcast_completes_first<S: SigilHandler>(
    card: CardView<S>,
    start: Stage<S>,
    event: SigilEvent,
    steps: Seq<Step<S>>,
    i: int,
    nested: SigilEvent,
)
    requires
        is_card_run(card, start, event, steps),
        0 <= i < steps.len(),
        forall|before: Activation<S>, after: Activation<S>|
            before.sigil == Some(card.sigils[i]) && #[trigger] S::activates(before, event, after)
                ==> dispatches(
                Stage { fight: before.fight, cause: None },
                nested,
                Stage { fight: after.fight, cause: None },
            ),
    ensures
        dispatches(
            Stage { fight: steps[i].before.fight, cause: None },
            nested,
            Stage { fight: steps[i].after.fight, cause: None },
        ),
        i + 1 < steps.len() ==> steps[i + 1].before.fight == steps[i].after.fight,
        i + 1 == steps.len() ==> stage_after(start, steps).fight == steps[i].after.fight,
{
    assert(step_follows(card, start, event, steps, i));
    if i + 1 < steps.len() {
        assert(step_follows(card, start, event, steps, i + 1));
    }
}

/// A card whose sigils have been activated is back in its lane: the lane
/// holds it, carrying the sigils left and those put on it, whatever the
/// activations put into the lane meanwhile, and the board has its four
/// lanes a row.
pub proof fn card_is_back_in_its_lane<S: SigilHandler>(
    before: Stage<S>,
    lane: Lane,
    card: CardView<S>,
    event: SigilEvent,
    steps: Seq<Step<S>>,
    after: Stage<S>,
)
    requires
        before.fight.board.well_formed(),
        lane.on_board(),
        is_lane_run(before, lane, card, event, steps, after),
    ensures
        after.fight.board.well_formed(),
        after.fight.board.slot(lane) == SlotView::Card(card_after(card, steps)),
{
    if steps.len() > 0 {
        let vacated = Stage { fight: before.fight.with_slot(lane, SlotView::Blank), ..before };
        assert(step_follows(card, vacated, event, steps, steps.len() - 1));
    }
}

proof fn stages_keep_the_board_whole<S: SigilHandler>(
    before: Stage<S>,
    event: SigilEvent,
    stages: Seq<Stage<S>>,
    after: Stage<S>,
    k: int,
)
    requires
        is_pass(before, event, stages, after),
        before.fight.board.well_formed(),
        0 <= k <= 2 * LANES,
    ensures
        stages[k].fight.board.well_formed(),
    decreases k,
{
    if k > 0 {
        stages_keep_the_board_whole(before, event, stages, after, k - 1);
        assert(stage_follows(before, event, stages, k - 1));
        let lane = activation_lanes(before.fight.active_player)[k - 1];
        let here = stages[k - 1];
        let there = stages[k];
        if before.fight.board.slot(lane) is Card {
            if let SlotView::Card(card) = here.fight.board.slot(lane) {
                let steps = choose|steps: Seq<Step<S>>|
                    is_lane_run(here, lane, card, event, steps, there);
                card_is_back_in_its_lane(here, lane, card, event, steps, there);
            }
        }
    }
}

/// A broadcast leaves the board with its two rows of four lanes.
pub proof fn broadcast_keeps_the_board_whole<S: SigilHandler>(
    before: Stage<S>,
    event: SigilEvent,
    after: Stage<S>,
)
    requires
        before.fight.board.well_formed(),
        dispatches(before, event, after),
    ensures
        after.fight.board.well_formed(),
{
    let stages = choose|stages: Seq<Stage<S>>| is_pass(before, event, stages, after);
    stages_keep_the_board_whole(before, event, stages, after, 2 * LANES as int);
}

/// What `part` shows of the fight and the cause is nothing that lies on
/// the board.
pub open spec fn off_the_board<S, T>(part: spec_fn(Stage<S>) -> T) -> bool {
    forall|stage: Stage<S>, lane: Lane, slot: SlotView<S>| #[trigger]
        part(Stage { fight: stage.fight.with_slot(lane, slot), cause: stage.cause }) == part(stage)
}

/// The sigils of the game leave what `part` shows of the fight and the
/// cause alone when they are activated for `event`.
pub open spec fn sigils_keep<S: SigilHandler, T>(
    part: spec_fn(Stage<S>) -> T,
    event: SigilEvent,
) -> bool {
    forall|before: Activation<S>, after: Activation<S>| #[trigger]
        S::activates(before, event, after) ==> part(
            Stage { fight: after.fight, cause: after.cause },
        ) == part(Stage { fight: before.fight, cause: before.cause })
}

proof fn card_run_keeps<S: SigilHandler, T>(
    part: spec_fn(Stage<S>) -> T,
    card: CardView<S>,
    start: Stage<S>,
    event: SigilEvent,
    steps: Seq<Step<S>>,
    i: int,
)
    requires
        is_card_run(card, start, event, steps),
        sigils_keep(part, event),
        0 <= i <= steps.len(),
    ensures
        part(stage_at(start, steps, i)) == part(start),
    decreases i,
{
    if i > 0 {
        card_run_keeps(part, card, start, event, steps, i - 1);
        assert(step_follows(card, start, event, steps, i - 1));
        let step = steps[i - 1];
        assert(Stage { fight: step.before.fight, cause: step.before.cause } == stage_at(
            start,
            steps,
            i - 1,
        ));
    }
}

proof fn lane_keeps<S: SigilHandler, T>(
    part: spec_fn(Stage<S>) -> T,
    before: Stage<S>,
    lane: Lane,
    event: SigilEvent,
    after: Stage<S>,
)
    requires
        activates_lane(before, lane, event, after),
        sigils_keep(part, event),
        off_the_board(part),
    ensures
        part(after) == part(before),
{
    match before.fight.board.slot(lane) {
        SlotView::Blank => {},
        SlotView::Card(card) => {
            let steps = choose|steps: Seq<Step<S>>|
                is_lane_run(before, lane, card, event, steps, after);
            let vacated = Stage { fight: before.fight.with_slot(lane, SlotView::Blank), ..before };
            let left = stage_after(vacated, steps);
            card_run_keeps(part, card, vacated, event, steps, steps.len() as int);
            assert(part(vacated) == part(before));
            assert(part(
                Stage {
                    fight: left.fight.with_slot(lane, SlotView::Card(card_after(card, steps))),
                    cause: left.cause,
                },
            ) == part(left));
        },
    }
}

proof fn stages_keep<S: SigilHandler, T>(
    part: spec_fn(Stage<S>) -> T,
    before: Stage<S>,
    event: SigilEvent,
    stages: Seq<Stage<S>>,
    after: Stage<S>,
    k: int,
)
    requires
        is_pass(before, event, stages, after),
        sigils_keep(part, event),
        off_the_board(part),
        0 <= k <= 2 * LANES,
    ensures
        part(stages[k]) == part(before),
    decreases k,
{
    if k > 0 {
        stages_keep(part, before, event, stages, after, k - 1);
        assert(stage_follows(before, event, stages, k - 1));
        let lane = activation_lanes(before.fight.active_player)[k - 1];
        if before.fight.board.slot(lane) is Card {
            lane_keeps(part, stages[k - 1], lane, event, stages[k]);
        }
    }
}

/// A broadcast changes only through what the sigils do whatever does not
/// lie on the board: where the sigils leave a part of the fight or of the
/// cause alone, so does the broadcast.
pub proof fn broadcast_keeps_what_sigils_keep<S: SigilHandler, T>(
    part: spec_fn(Stage<S>) -> T,
    before: Stage<S>,
    event: SigilEvent,
    after: Stage<S>,
)
    requires
        dispatches(before, event, after),
        sigils_keep(part, event),
        off_the_board(part),
    ensures
        part(after) == part(before),
{
    let stages = choose|stages: Seq<Stage<S>>| is_pass(before, event, stages, after);
    stages_keep(part, before, event, stages, after, 2 * LANES as int);
}

/// The sigils of the game leave the hand and the deck of `player` alone
/// when they are activated for `event`.
pub open spec fn keeps_cards_of<S: SigilHandler>(player: PlayerID, event: SigilEvent) -> bool {
    forall|before: Activation<S>, after: Activation<S>| #[trigger]
        S::activates(before, event, after) ==> after.fight.player(player) == before.fight.player(
            player,
        )
}

/// The sigils of the game leave the card that caused the event alone when
/// they are activated for `event`.
pub open spec fn keeps_cause<S: SigilHandler>(event: SigilEvent) -> bool {
    forall|before: Activation<S>, after: Activation<S>| #[trigger]
        S::activates(before, event, after) ==> after.cause == before.cause
}

/// A broadcast changes a player's hand and deck only through what the
/// sigils do: where the sigils leave them alone, so does the broadcast.
pub proof fn broadcast_keeps_cards<S: SigilHandler>(
    player: PlayerID,
    before: Stage<S>,
    event: SigilEvent,
    after: Stage<S>,
)
    requires
        dispatches(before, event, after),
        keeps_cards_of::<S>(player, event),
    ensures
        after.fight.player(player) == before.fight.player(player),
{
    let part = |stage: Stage<S>| stage.fight.player(player);
    broadcast_keeps_what_sigils_keep(part, before, event, after);
}

/// A broadcast changes the card that caused the event only through what the
/// sigils do: where the sigils leave it alone, it comes back as it was
/// lent.
pub proof fn broadcast_keeps_cause<S: SigilHandler>(
    before: Stage<S>,
    event: SigilEvent,
    after: Stage<S>,
)
    requires
        dispatches(before, event, after),
        keeps_cause::<S>(event),
    ensures
        after.cause == before.cause,
{
    let part = |stage: Stage<S>| stage.cause;
    broadcast_keeps_what_sigils_keep(part, before, event, after);
}

proof fn stages_stay_blank<S: SigilHandler>(
    before: Stage<S>,
    event: SigilEvent,
    stages: Seq<Stage<S>>,
    after: Stage<S>,
    k: int,
)
    requires
        is_pass(before, event, stages, after),
        before.fight.board.well_formed(),
        before.fight.board.is_blank(),
        0 <= k <= 2 * LANES,
    ensures
        stages[k] == before,
    decreases k,
{
    if k > 0 {
        stages_stay_blank(before, event, stages, after, k - 1);
        assert(stage_follows(before, event, stages, k - 1));
    }
}

/// On a board without cards a broadcast activates nothing and leaves the
/// fight and the cause exactly as they are.
pub proof fn broadcast_over_blank_board_changes_nothing<S: SigilHandler>(
    before: Stage<S>,
    event: SigilEvent,
    after: Stage<S>,
)
    requires
        before.fight.board.well_formed(),
        before.fight.board.is_blank(),
    ensures
        dispatches(before, event, after) <==> after == before,
{
    if dispatches(before, event, after) {
        let stages = choose|stages: Seq<Stage<S>>| is_pass(before, event, stages, after);
        stages_stay_blank(before, event, stages, after, 2 * LANES as int);
    }
    if after == before {
        let stages = Seq::new((2 * LANES + 1) as nat, |k: int| before);
        assert forall|k: int| 0 <= k < 2 * LANES implies #[trigger] stage_follows(
            before,
            event,
            stages,
            k,
        ) by {}
        assert(is_pass(before, event, stages, before));
    }
}

/// A draw from a deck that is not empty broadcasts the draw once, with the
/// card that was on top of the deck as its cause, lent for change, and with
/// that card out of the deck and not yet in the hand. When the broadcast is
/// over the card, as the broadcast left it, is the last in the hand of the
/// player who drew, and nothing else differs from what the broadcast left.
pub proof fn draw_hands_over_the_drawn_card<S: SigilHandler>(
    before: FightView<S>,
    player: PlayerID,
    after: FightView<S>,
)
    requires
        before.player(player).decks.len() > 0,
        draws(before, player, after),
    ensures
        after.player(player).hand.len() > 0,
        drawn(before, player).cause == Some(before.player(player).top()),
        dispatches(
            drawn(before, player),
            SigilEvent::OnDraw,
            Stage {
                fight: after.with_player(
                    player,
                    PlayerView {
                        hand: after.player(player).hand.drop_last(),
                        decks: after.player(player).decks,
                    },
                ),
                cause: Some(after.player(player).hand.last()),
            },
        ),
{
    let broadcast = choose|broadcast: Stage<S>| is_draw(before, player, broadcast, after);
    let card = broadcast.cause->Some_0;
    assert(after.player(player).hand == broadcast.fight.player(player).hand.push(card));
    assert(after.player(player).hand.drop_last() =~= broadcast.fight.player(player).hand);
    assert(after.with_player(
        player,
        PlayerView {
            hand: after.player(player).hand.drop_last(),
            decks: after.player(player).decks,
        },
    ) == broadcast.fight);
}

/// Where the sigils leave the hand and the deck of the player who draws
/// alone when a card is drawn, a draw from a deck that is not empty moves
/// exactly one card of that player: the top card leaves the deck, the
/// player's other cards stay where they are, and the hand has one card
/// more, the last, which is the card drawn as the broadcast left it.
pub proof fn draw_moves_exactly_one_card<S: SigilHandler>(
    before: FightView<S>,
    player: PlayerID,
    after: FightView<S>,
)
    requires
        before.player(player).decks.len() > 0,
        draws(before, player, after),
        keeps_cards_of::<S>(player, SigilEvent::OnDraw),
    ensures
        after.player(player).hand.len() == before.player(player).hand.len() + 1,
        after.player(player).hand.drop_last() == before.player(player).hand,
        after.player(player).decks == before.player(player).decks.drop_last(),
        after.player(player).decks.len() == before.player(player).decks.len() - 1,
{
    let broadcast = choose|broadcast: Stage<S>| is_draw(before, player, broadcast, after);
    broadcast_keeps_cards(player, drawn(before, player), SigilEvent::OnDraw, broadcast);
    let card = broadcast.cause->Some_0;
    assert(after.player(player).hand == before.player(player).hand.push(card));
    assert(after.player(player).hand.drop_last() =~= before.player(player).hand);
}

/// Where the sigils leave the card that is drawn alone, the card comes into
/// the hand as it lay on the deck; where they change it, it comes into the
/// hand as they left it.
pub proof fn drawn_card_comes_as_the_sigils_left_it<S: SigilHandler>(
    before: FightView<S>,
    player: PlayerID,
    after: FightView<S>,
)
    requires
        before.player(player).decks.len() > 0,
        draws(before, player, after),
    ensures
        after.player(player).hand.len() > 0,
        keeps_cause::<S>(SigilEvent::OnDraw) ==> after.player(player).hand.last()
            == before.player(player).top(),
        exists|broadcast: Stage<S>|
            dispatches(drawn(before, player), SigilEvent::OnDraw, broadcast) && broadcast.cause
                == Some(after.player(player).hand.last()),
{
    let broadcast = choose|broadcast: Stage<S>| is_draw(before, player, broadcast, after);
    if keeps_cause::<S>(SigilEvent::OnDraw) {
        broadcast_keeps_cause(drawn(before, player), SigilEvent::OnDraw, broadcast);
    }
}

/// Where the sigils leave the hand and the deck of the player who draws
/// alone when that player starves, a draw from an empty deck, which is the
/// broadcast that the player starves and nothing more, leaves the player's
/// hand and deck as they are, their sizes among the rest.
pub proof fn starved_draw_keeps_cards<S: SigilHandler>(
    before: FightView<S>,
    player: PlayerID,
    after: FightView<S>,
)
    requires
        before.player(player).decks.len() == 0,
        starves(before, player, after),
        keeps_cards_of::<S>(player, SigilEvent::OnPlayerStarve(player)),
    ensures
        after.player(player) == before.player(player),
        after.player(player).hand.len() == before.player(player).hand.len(),
        after.player(player).decks.len() == 0,
{
    broadcast_keeps_cards(
        player,
        Stage { fight: before, cause: None },
        SigilEvent::OnPlayerStarve(player),
        Stage { fight: after, cause: None },
    );
}

/// On a board without cards a draw is the move of the top card alone, and a
/// draw from an empty deck changes nothing at all.
pub proof fn draw_over_blank_board<S: SigilHandler>(
    before: FightView<S>,
    player: PlayerID,
    after: FightView<S>,
)
    requires
        before.board.well_formed(),
        before.board.is_blank(),
    ensures
        before.player(player).decks.len() > 0 ==> (draws(before, player, after) <==> after
            == before.with_player(
            player,
            before.player(player).without_top().with_card(before.player(player).top()),
        )),
        starves(before, player, after) <==> after == before,
{
    broadcast_over_blank_board_changes_nothing(
        Stage { fight: before, cause: None },
        SigilEvent::OnPlayerStarve(player),
        Stage { fight: after, cause: None },
    );
    if before.player(player).decks.len() > 0 {
        let card = before.player(player).top();
        let moved = before.with_player(player, before.player(player).without_top().with_card(card));
        if draws(before, player, after) {
            let broadcast = choose|broadcast: Stage<S>| is_draw(before, player, broadcast, after);
            broadcast_over_blank_board_changes_nothing(
                drawn(before, player),
                SigilEvent::OnDraw,
                broadcast,
            );
        }
        if after == moved {
            broadcast_over_blank_board_changes_nothing(
                drawn(before, player),
                SigilEvent::OnDraw,
                drawn(before, player),
            );
            assert(is_draw(before, player, drawn(before, player), after));
        }
    }
}

} // verus!
