use leshy::{Card, CardData, Error, Player, PlayerID};

fn template(power: isize, health: isize, sigils: Vec<u8>) -> &'static CardData<u8> {
    Box::leak(Box::new(CardData::new(power, health, sigils)))
}

fn marked(health_mod: isize) -> Card<u8> {
    let mut card = Card::new(template(1, 1, vec![]), PlayerID::First);
    card.health_mod = health_mod;
    card
}

fn marks(cards: &[Card<u8>]) -> Vec<isize> {
    cards.iter().map(|card| card.health_mod).collect()
}

#[test]
fn card_data_gives_back_what_it_was_made_with() {
    let data = CardData::new(3, -2, vec![7u8, 8, 9]);
    assert_eq!(data.power(), 3);
    assert_eq!(data.health(), -2);
    assert_eq!(data.sigils(), &vec![7u8, 8, 9]);
}

#[test]
fn card_data_holds_extreme_values() {
    let data: CardData<u8> = CardData::new(isize::MAX, isize::MIN, vec![]);
    assert_eq!(data.power(), isize::MAX);
    assert_eq!(data.health(), isize::MIN);
    assert!(data.sigils().is_empty());
}

#[test]
fn sigils_mut_changes_sigils_in_place() {
    let mut data = CardData::new(1, 1, vec![1u8, 2, 3]);
    {
        let sigils = data.sigils_mut();
        assert_eq!(sigils.len(), 3);
        sigils[1] = 20;
        sigils.swap(0, 2);
    }
    assert_eq!(data.sigils(), &vec![3u8, 20, 1]);
    assert_eq!(data.power(), 1);
    assert_eq!(data.health(), 1);
}

#[test]
fn card_data_clone_is_equal_and_independent() {
    let mut data = CardData::new(4, 5, vec![1u8, 2]);
    let copy = data.clone();
    data.sigils_mut()[0] = 9;
    assert_eq!(copy.power(), 4);
    assert_eq!(copy.health(), 5);
    assert_eq!(copy.sigils(), &vec![1u8, 2]);
    assert_eq!(data.sigils(), &vec![9u8, 2]);
}

#[test]
fn new_card_starts_from_its_template() {
    let data = template(2, 6, vec![4, 5]);
    let card = Card::new(data, PlayerID::Second);
    assert_eq!(card.pow_mod, 0);
    assert_eq!(card.health_mod, 0);
    assert!(card.owner == PlayerID::Second);
    assert_eq!(card.sigils, vec![4u8, 5]);
    assert_eq!(card.data.power(), 2);
    assert_eq!(card.data.health(), 6);
}

#[test]
fn copies_of_a_template_change_independently() {
    let data = template(2, 6, vec![4, 5]);
    let mut one = Card::new(data, PlayerID::First);
    let other = Card::new(data, PlayerID::First);
    one.sigils.push(6);
    one.sigils.remove(0);
    one.health_mod -= 3;
    assert_eq!(one.sigils, vec![5u8, 6]);
    assert_eq!(other.sigils, vec![4u8, 5]);
    assert_eq!(other.health_mod, 0);
    assert_eq!(data.sigils(), &vec![4u8, 5]);
    assert_eq!(data.health(), 6);
    assert!(std::ptr::eq(one.data, other.data));
}

#[test]
fn card_clone_keeps_every_field() {
    let mut card = Card::new(template(2, 6, vec![4, 5]), PlayerID::Second);
    card.pow_mod = -1;
    card.health_mod = 8;
    card.sigils.push(9);
    let mut copy = card.clone();
    assert_eq!(copy.pow_mod, -1);
    assert_eq!(copy.health_mod, 8);
    assert!(copy.owner == PlayerID::Second);
    assert_eq!(copy.sigils, vec![4u8, 5, 9]);
    assert!(std::ptr::eq(copy.data, card.data));
    copy.sigils.clear();
    assert_eq!(card.sigils, vec![4u8, 5, 9]);
}

#[test]
fn player_id_other_swaps_sides() {
    assert!(PlayerID::First.other() == PlayerID::Second);
    assert!(PlayerID::Second.other() == PlayerID::First);
    assert!(PlayerID::First.other().other() == PlayerID::First);
    assert!(PlayerID::default() == PlayerID::First);
}

#[test]
fn new_player_has_no_cards() {
    let player: Player<u8> = Player::new();
    assert!(player.hand.is_empty());
    assert!(player.decks.is_empty());
}

#[test]
fn player_draw_puts_the_card_last_in_hand() {
    let mut player = Player::new();
    player.decks.push(marked(50));
    player.draw(marked(1));
    player.draw(marked(2));
    assert_eq!(marks(&player.hand), vec![1, 2]);
    assert_eq!(marks(&player.decks), vec![50]);
}

#[test]
fn draw_deck_moves_the_top_card() {
    let mut player = Player::new();
    player.decks.push(marked(1));
    player.decks.push(marked(2));
    player.hand.push(marked(9));

    assert!(player.draw_deck().is_ok());
    assert_eq!(marks(&player.hand), vec![9, 2]);
    assert_eq!(marks(&player.decks), vec![1]);

    assert!(player.draw_deck().is_ok());
    assert_eq!(marks(&player.hand), vec![9, 2, 1]);
    assert!(player.decks.is_empty());
}

#[test]
fn draw_deck_from_empty_deck_starves() {
    let mut player = Player::new();
    player.hand.push(marked(9));
    let outcome = player.draw_deck();
    assert!(matches!(outcome, Err(Error::PlayerStarve)));
    assert_eq!(outcome, Err(Error::PlayerStarve));
    assert_eq!(marks(&player.hand), vec![9]);
    assert!(player.decks.is_empty());
}

#[test]
fn player_clone_keeps_hand_and_deck() {
    let mut player = Player::new();
    player.decks.push(marked(1));
    player.decks.push(marked(2));
    player.hand.push(marked(3));
    let copy = player.clone();
    player.hand.clear();
    assert_eq!(marks(&copy.hand), vec![3]);
    assert_eq!(marks(&copy.decks), vec![1, 2]);
}

#[test]
fn power_and_health_add_the_modifier_to_the_base() {
    let mut card = Card::new(template(2, 6, vec![]), PlayerID::First);
    assert_eq!(card.power(), Some(2));
    assert_eq!(card.health(), Some(6));
    card.pow_mod = 3;
    card.health_mod = -4;
    assert_eq!(card.power(), Some(5));
    assert_eq!(card.health(), Some(2));
    assert_eq!(card.data.power(), 2);
    assert_eq!(card.data.health(), 6);
}

#[test]
fn card_without_health_is_dead() {
    let mut card = Card::new(template(2, 6, vec![]), PlayerID::First);
    assert!(!card.is_dead());
    card.health_mod = -5;
    assert_eq!(card.health(), Some(1));
    assert!(!card.is_dead());
    card.health_mod = -6;
    assert_eq!(card.health(), Some(0));
    assert!(card.is_dead());
    card.health_mod = -7;
    assert_eq!(card.health(), Some(-1));
    assert!(card.is_dead());
}

#[test]
fn power_and_health_beyond_isize_are_none() {
    let mut strong = Card::new(template(isize::MAX, isize::MAX, vec![]), PlayerID::First);
    strong.pow_mod = 1;
    strong.health_mod = 1;
    assert_eq!(strong.power(), None);
    assert_eq!(strong.health(), None);
    assert!(!strong.is_dead());
    strong.pow_mod = 0;
    assert_eq!(strong.power(), Some(isize::MAX));

    let mut weak = Card::new(template(isize::MIN, isize::MIN, vec![]), PlayerID::First);
    weak.pow_mod = -1;
    weak.health_mod = -1;
    assert_eq!(weak.power(), None);
    assert_eq!(weak.health(), None);
    assert!(weak.is_dead());
    weak.health_mod = isize::MAX;
    assert_eq!(weak.health(), Some(-1));
    assert!(weak.is_dead());
}
