use leshy::{Board, Card, CardData, FightManager, PlayerID, Slot, LANES};

fn marked(owner: PlayerID, pow_mod: isize) -> Slot<u8> {
    let data: &'static CardData<u8> = Box::leak(Box::new(CardData::new(0, 1, vec![])));
    let mut card = Card::new(data, owner);
    card.pow_mod = pow_mod;
    Slot::Card(card)
}

fn mark(slot: &Slot<u8>) -> Option<isize> {
    match slot {
        Slot::Blank => None,
        Slot::Card(card) => Some(card.pow_mod),
    }
}

fn full_board() -> Board<u8> {
    let mut board = Board::new();
    for lane in 0..LANES {
        board.first[lane] = marked(PlayerID::First, 10 + lane as isize);
        board.second[lane] = marked(PlayerID::Second, 20 + lane as isize);
    }
    board
}

#[test]
fn new_board_has_two_rows_of_four_blank_slots() {
    let board: Board<u8> = Board::new();
    assert_eq!(LANES, 4);
    assert_eq!(board.first.len(), 4);
    assert_eq!(board.second.len(), 4);
    assert!(board.first.iter().all(|slot| matches!(slot, Slot::Blank)));
    assert!(board.second.iter().all(|slot| matches!(slot, Slot::Blank)));
}

#[test]
fn slot_reads_each_row_in_its_own_numbering() {
    let board = full_board();
    for lane in 0..LANES {
        assert_eq!(mark(board.slot(PlayerID::First, lane)), Some(10 + lane as isize));
        assert_eq!(mark(board.slot(PlayerID::Second, lane)), Some(20 + lane as isize));
    }
}

#[test]
fn opposing_lane_is_mirrored() {
    let board = full_board();
    assert_eq!(mark(board.opposing(PlayerID::First, 0)), Some(23));
    assert_eq!(mark(board.opposing(PlayerID::First, 3)), Some(20));
    assert_eq!(mark(board.opposing(PlayerID::First, 1)), Some(22));
    assert_eq!(mark(board.opposing(PlayerID::First, 2)), Some(21));
    assert_eq!(mark(board.opposing(PlayerID::Second, 0)), Some(13));
    assert_eq!(mark(board.opposing(PlayerID::Second, 3)), Some(10));
}

#[test]
fn opposing_lane_may_be_blank() {
    let mut board = Board::new();
    board.second[3] = marked(PlayerID::Second, 5);
    assert_eq!(mark(board.opposing(PlayerID::First, 0)), Some(5));
    assert_eq!(mark(board.opposing(PlayerID::First, 3)), None);
    assert_eq!(mark(board.opposing(PlayerID::Second, 0)), None);
}

#[test]
fn replace_swaps_one_slot_and_leaves_the_rest() {
    let mut board = full_board();
    let previous = board.replace(PlayerID::Second, 2, Slot::Blank);
    assert_eq!(mark(&previous), Some(22));
    let previous = board.replace(PlayerID::First, 0, marked(PlayerID::First, 99));
    assert_eq!(mark(&previous), Some(10));
    let first: Vec<Option<isize>> = board.first.iter().map(mark).collect();
    let second: Vec<Option<isize>> = board.second.iter().map(mark).collect();
    assert_eq!(first, vec![Some(99), Some(11), Some(12), Some(13)]);
    assert_eq!(second, vec![Some(20), Some(21), None, Some(23)]);
}

#[test]
fn slot_and_board_clone_keep_their_cards() {
    let mut board = full_board();
    let copy = board.clone();
    board.first[0] = Slot::Blank;
    assert_eq!(mark(&copy.first[0]), Some(10));
    assert_eq!(mark(&copy.second[3]), Some(23));
    assert_eq!(mark(&copy.first[0].clone()), Some(10));
    assert_eq!(mark(&Slot::<u8>::Blank.clone()), None);
}
