//! Cards: the shared template of a card, and the copies of it in play.

use crate::player::PlayerID;
use vstd::prelude::*;

verus! {

/// What a [`CardData`] holds, as plain values.
pub struct CardDataView<S> {
    pub power: int,
    pub health: int,
    pub sigils: Seq<S>,
}

/// The template of a card: its base power, its base health and the
/// abilities it is printed with. A template is shared by all the copies of
/// the card and is not changed once copies exist; what happens to a copy is
/// recorded in the [`Card`].
pub struct CardData<S> {
    power: isize,
    health: isize,
    sigils: Vec<S>,
}

impl<S> View for CardData<S> {
    type V = CardDataView<S>;

    closed spec fn view(&self) -> CardDataView<S> {
        CardDataView {
            power: self.power as int,
            health: self.health as int,
            sigils: self.sigils@,
        }
    }
}

impl<S> CardData<S> {
    /// A template with the given base power, base health and abilities.
    pub fn new(power: isize, health: isize, sigils: Vec<S>) -> (data: Self)
        ensures
            data@ == (CardDataView { power: power as int, health: health as int, sigils: sigils@ }),
    {
        CardData { power, health, sigils }
    }

    /// The power or attack of the card.
    pub fn power(&self) -> (p: isize)
        ensures
            p == self@.power,
    {
        self.power
    }

    /// The health of the card. When a card takes damage this value stays
    /// unchanged: [`Card::health_mod`] changes instead.
    pub fn health(&self) -> (h: isize)
        ensures
            h == self@.health,
    {
        self.health
    }

    /// The sigils on this card, open to change in place. Their number stays.
    pub fn sigils_mut(&mut self) -> (sigils: &mut [S])
        ensures
            sigils@ == old(self)@.sigils,
            final(self)@ == (CardDataView { sigils: final(sigils)@, ..old(self)@ }),
    {
        self.sigils.as_mut_slice()
    }

    /// The sigils on this card.
    pub fn sigils(&self) -> (sigils: &Vec<S>)
        ensures
            sigils@ == self@.sigils,
    {
        &self.sigils
    }
}

impl<S: Copy> Clone for CardData<S> {
    fn clone(&self) -> (data: Self)
        ensures
            data@ == self@,
    {
        CardData { power: self.power, health: self.health, sigils: copy_sigils(&self.sigils) }
    }
}

/// What a [`Card`] holds, as plain values.
pub struct CardView<S> {
    pub pow_mod: int,
    pub health_mod: int,
    pub data: CardDataView<S>,
    pub owner: PlayerID,
    pub sigils: Seq<S>,
}

impl<S> CardView<S> {
    /// The power the card attacks with: base power and modifier together.
    pub open spec fn power(self) -> int {
        self.data.power + self.pow_mod
    }

    /// The health the card has left: base health and modifier together.
    pub open spec fn health(self) -> int {
        self.data.health + self.health_mod
    }

    /// A card with no health left is dead.
    pub open spec fn is_dead(self) -> bool {
        self.health() <= 0
    }

    /// The same card carrying `sigils` as its abilities.
    pub open spec fn with_sigils(self, sigils: Seq<S>) -> CardView<S> {
        CardView { sigils, ..self }
    }
}

/// Representation of a playing card, in a deck, in a hand or on the board.
pub struct Card<S: 'static> {
    /// Modification to the power of the card.
    pub pow_mod: isize,
    /// Modification to the health of the card.
    pub health_mod: isize,
    /// The template this card is a copy of.
    pub data: &'static CardData<S>,
    /// The owner of this card.
    pub owner: PlayerID,
    /// The abilities this copy carries now. They start as those of the
    /// template and change independently of it.
    pub sigils: Vec<S>,
}

impl<S> View for Card<S> {
    type V = CardView<S>;

    open spec fn view(&self) -> CardView<S> {
        CardView {
            pow_mod: self.pow_mod as int,
            health_mod: self.health_mod as int,
            data: self.data@,
            owner: self.owner,
            sigils: self.sigils@,
        }
    }
}

/// The cards of a hand or a deck as plain values, in the same order.
pub open spec fn cards_view<S>(cards: Seq<Card<S>>) -> Seq<CardView<S>> {
    Seq::new(cards.len(), |i: int| cards[i]@)
}

/// Putting a card last commutes with taking the plain values.
pub proof fn cards_view_push<S>(cards: Seq<Card<S>>, card: Card<S>)
    ensures
        cards_view(cards.push(card)) == cards_view(cards).push(card@),
{
    assert(cards_view(cards.push(card)) =~= cards_view(cards).push(card@));
}

/// Taking the last card away commutes with taking the plain values.
pub proof fn cards_view_drop_last<S>(cards: Seq<Card<S>>)
    requires
        cards.len() > 0,
    ensures
        cards_view(cards.drop_last()) == cards_view(cards).drop_last(),
        cards_view(cards).last() == cards.last()@,
{
    assert(cards_view(cards.drop_last()) =~= cards_view(cards).drop_last());
}

impl<S: Copy> Card<S> {
    /// A fresh copy of the template `data` for `owner`: no modifier, and the
    /// abilities the template is printed with.
    pub fn new(data: &'static CardData<S>, owner: PlayerID) -> (card: Self)
        ensures
            card@ == (CardView {
                pow_mod: 0,
                health_mod: 0,
                data: data@,
                owner,
                sigils: data@.sigils,
            }),
    {
        let sigils = copy_sigils(data.sigils());
        Card { pow_mod: 0, health_mod: 0, data, owner, sigils }
    }
}

impl<S> Card<S> {
    /// The power the card attacks with: the base power of its template and
    /// the card's own modifier together; `None` where the sum is beyond
    /// what an `isize` holds.
    pub fn power(&self) -> (power: Option<isize>)
        ensures
            power == (if isize::MIN <= self@.power() <= isize::MAX {
                Some(self@.power() as isize)
            } else {
                None
            }),
    {
        self.data.power().checked_add(self.pow_mod)
    }

    /// The health the card has left: the base health of its template and the
    /// card's own modifier, which holds the damage taken and the healing
    /// received, together; `None` where the sum is beyond what an `isize`
    /// holds.
    pub fn health(&self) -> (health: Option<isize>)
        ensures
            health == (if isize::MIN <= self@.health() <= isize::MAX {
                Some(self@.health() as isize)
            } else {
                None
            }),
    {
        self.data.health().checked_add(self.health_mod)
    }

    /// Whether the card is dead: whether it has no health left.
    pub fn is_dead(&self) -> (dead: bool)
        ensures
            dead == self@.is_dead(),
    {
        match self.data.health().checked_add(self.health_mod) {
            Some(health) => health <= 0,
            None => self.health_mod < 0,
        }
    }
}

impl<S: Copy> Clone for Card<S> {
    fn clone(&self) -> (card: Self)
        ensures
            card@ == self@,
    {
        Card {
            pow_mod: self.pow_mod,
            health_mod: self.health_mod,
            data: self.data,
            owner: self.owner,
            sigils: copy_sigils(&self.sigils),
        }
    }
}

/// A vector of its own with equal cards in the same order.
pub(crate) fn copy_cards<S: Copy>(cards: &Vec<Card<S>>) -> (copy: Vec<Card<S>>)
    ensures
        cards_view(copy@) == cards_view(cards@),
{
    let mut copy: Vec<Card<S>> = Vec::new();
    let mut i: usize = 0;
    while i < cards.len()
        invariant
            i <= cards.len(),
            copy.len() == i,
            forall|j: int| 0 <= j < i ==> copy@[j]@ == cards@[j]@,
        decreases cards.len() - i,
    {
        copy.push(cards[i].clone());
        i += 1;
    }
    assert(cards_view(copy@) =~= cards_view(cards@));
    copy
}

/// A vector of its own with the same abilities in the same order.
pub(crate) fn copy_sigils<S: Copy>(sigils: &Vec<S>) -> (copy: Vec<S>)
    ensures
        copy@ == sigils@,
{
    let mut copy: Vec<S> = Vec::new();
    let mut i: usize = 0;
    while i < sigils.len()
        invariant
            i <= sigils.len(),
            copy@ == sigils@.take(i as int),
        decreases sigils.len() - i,
    {
        copy.push(sigils[i]);
        i += 1;
    }
    copy
}

} // verus!
