//! Sigils: the events they react to, what an activation is told, and the
//! trait through which a game supplies what its sigils do.

use crate::card::{Card, CardView};
use crate::fight::{FightManager, FightView};
use crate::player::PlayerID;
use vstd::prelude::*;

verus! {

/// The events of a fight that sigils can react to.
#[derive(Clone, Copy, Debug, PartialEq, Eq, Structural)]
#[allow(missing_docs)]
pub enum SigilEvent {
    OnAttack,
    OnActivate,
    OnDeath,
    OnDraw,
    OnPlay,
    OnSacrifice,
    OnDamage,
    OnTurnEnd,
    /// The given player tried to draw from an empty deck.
    OnPlayerStarve(PlayerID),
}

/// What a [`Context`] holds, as plain values.
pub struct ContextView<S> {
    pub event: SigilEvent,
    pub cause: Option<CardView<S>>,
}

/// Bundling a sigil event as well as related information.
pub struct Context<'a, S: 'static> {
    /// The event that is being handled.
    pub event: SigilEvent,
    /// The card that caused this event, where a single card did, lent for
    /// change. It may be a card like the one whose sigil is being activated.
    pub cause: Option<&'a mut Card<S>>,
}

impl<'a, S> View for Context<'a, S> {
    type V = ContextView<S>;

    open spec fn view(&self) -> ContextView<S> {
        ContextView {
            event: self.event,
            cause: match self.cause {
                Some(card) => Some(card@),
                None => None,
            },
        }
    }
}

/// Everything one activation of a sigil can change: the place of the sigil
/// among those of its card, the card that carries it, the card that caused
/// the event, and the fight.
///
/// `sigil` holds the sigil when the activation begins. An activation that
/// leaves it empty takes the sigil off its card; one that leaves another
/// sigil there turns the sigil into that one. While its sigils are
/// activated the card is in no lane, hand or deck: it is reached as
/// `holder` only, and the sigils being activated are not on it.
pub struct Activation<S> {
    pub sigil: Option<S>,
    pub holder: CardView<S>,
    pub cause: Option<CardView<S>>,
    pub fight: FightView<S>,
}

/// Refer to the [`FightManager`] documentation to see the responsibility of
/// this trait. It is implemented by the type that names a game's sigils,
/// usually an enum.
pub trait SigilHandler: Sized + Copy + 'static {
    /// What one activation of a sigil for `event` may do: `before` is what
    /// it found and `after` what it left. An implementation states here
    /// what its sigils do; as it stands, nothing is promised of them.
    open spec fn activates(
        before: Activation<Self>,
        event: SigilEvent,
        after: Activation<Self>,
    ) -> bool {
        true
    }

    /// Activate the sigil in `slot`, which `holder` carries, because of the
    /// event in `ctx`.
    ///
    /// Every sigil is activated for every event: one that does not react to
    /// `ctx.event` returns without a change. The activation may change the
    /// sigil or take it out of `slot`, and it may change its holder, the
    /// card that caused the event and anything in the fight; it may
    /// broadcast further events through `fight` before it returns. The card
    /// behind `ctx.cause` is changed in place: the activation neither puts
    /// another card there nor takes that one away.
    fn handle_sigil(
        slot: &mut Option<Self>,
        holder: &mut Card<Self>,
        ctx: &mut Context<Self>,
        fight: &mut FightManager<Self>,
    )
        requires
            *old(slot) is Some,
        ensures
            Self::activates(
                Activation {
                    sigil: *old(slot),
                    holder: old(holder)@,
                    cause: old(ctx)@.cause,
                    fight: old(fight)@,
                },
                old(ctx).event,
                Activation {
                    sigil: *final(slot),
                    holder: final(holder)@,
                    cause: final(ctx)@.cause,
                    fight: final(fight)@,
                },
            ),
            old(ctx).cause is None ==> final(ctx).cause is None,
            old(ctx).cause matches Some(lent) ==> (final(ctx).cause matches Some(kept)
                && *final(kept) == *final(lent)),
    ;
}

} // verus!
