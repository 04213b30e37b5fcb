use game_provider::splendor::messages::{ResourceMap, ResourceType, StartGameSettings};
use game_provider::splendor::msg_builder as mb;
use game_provider::splendor::state_machine::SplendorStateMachine;
use game_provider::state_machine::StateMachine;

fn setup() -> SplendorStateMachine {
    let mut sm = SplendorStateMachine::new();
    sm.transition_start_game_args(mb::start_game_args(
        1,
        vec![1, 2, 3],
        StartGameSettings { round_time: 15 },
    ))
    .unwrap();
    sm.state.cur_roomid = 1;
    sm.state.cur_userid = 1;
    sm
}

fn check_resource(
    resources: &ResourceMap,
    agate: i32,
    emerald: i32,
    diamond: i32,
    ruby: i32,
    sapphire: i32,
    gold: i32,
) {
    assert_eq!(resources.entries[ResourceType::Agate as usize].number, agate);
    assert_eq!(resources.entries[ResourceType::Emerald as usize].number, emerald);
    assert_eq!(resources.entries[ResourceType::Diamond as usize].number, diamond);
    assert_eq!(resources.entries[ResourceType::Ruby as usize].number, ruby);
    assert_eq!(resources.entries[ResourceType::Sapphire as usize].number, sapphire);
    assert_eq!(resources.entries[ResourceType::Gold as usize].number, gold);
}

#[test]
fn take_three_kinds() {
    let mut sm = setup();
    sm.transition_take(mb::take(vec![
        ResourceType::Agate as i32,
        ResourceType::Diamond as i32,
        ResourceType::Sapphire as i32,
    ]))
    .unwrap();
    let game_state = sm.state.roomid_to_game_state.get(&1).unwrap();
    let board_resources = &game_state.board_state.resources_on_board;
    check_resource(&board_resources, 6, 7, 6, 7, 6, 5);

    for player in 1..3 {
        let resources = &game_state.userid_to_player_state.get(&player).unwrap().resource;
        if player == 1 {
            check_resource(&resources, 1, 0, 1, 0, 1, 0);
        } else {
            check_resource(&resources, 0, 0, 0, 0, 0, 0);
        }
    }
}

#[test]
fn take_two_kinds() {
    let mut sm = setup();
    sm.transition_take(mb::take(vec![
        ResourceType::Emerald as i32,
        ResourceType::Ruby as i32,
    ]))
    .unwrap();
    let game_state = sm.state.roomid_to_game_state.get(&1).unwrap();
    let board_resources = &game_state.board_state.resources_on_board;
    check_resource(&board_resources, 7, 6, 7, 6, 7, 5);

    for player in 1..3 {
        let resources = &game_state.userid_to_player_state.get(&player).unwrap().resource;
        if player == 1 {
            check_resource(&resources, 0, 1, 0, 1, 0, 0);
        } else {
            check_resource(&resources, 0, 0, 0, 0, 0, 0);
        }
    }
}

#[test]
fn take_one_kind() {
    let mut sm = setup();
    sm.transition_take(mb::take(vec![
        ResourceType::Diamond as i32,
        ResourceType::Diamond as i32,
    ]))
    .unwrap();
    let game_state = sm.state.roomid_to_game_state.get(&1).unwrap();
    let board_resources = &game_state.board_state.resources_on_board;
    check_resource(&board_resources, 7, 7, 5, 7, 7, 5);

    for player in 1..3 {
        let resources = &game_state.userid_to_player_state.get(&player).unwrap().resource;
        if player == 1 {
            check_resource(&resources, 0, 0, 2, 0, 0, 0);
        } else {
            check_resource(&resources, 0, 0, 0, 0, 0, 0);
        }
    }
}

#[test]
fn purchase_from_board() {
    let mut sm = setup();
    let dev_card = sm.state.roomid_to_game_state.get(&1).unwrap().board_state.dev_cards[0]
        .cards_on_board[2]
        .clone();
    for entry in dev_card.price.entries.iter() {
        let game_state = sm.state.roomid_to_game_state.get_mut(&1).unwrap();
        let idx = entry.resource_type as usize;
        game_state.board_state.resources_on_board.entries[idx].number -= entry.number;
        game_state.userid_to_player_state.get_mut(&1).unwrap().resource.entries[idx].number +=
            entry.number;
    }
    sm.transition_purchase(mb::purchase(0, 2)).unwrap();

    let game_state = sm.state.roomid_to_game_state.get(&1).unwrap();
    let board_state = &game_state.board_state;
    let player_state = game_state.userid_to_player_state.get(&1).unwrap();
    check_resource(&board_state.resources_on_board, 7, 7, 7, 7, 7, 5);
    check_resource(&player_state.resource, 0, 0, 0, 0, 0, 0);
    assert_eq!(player_state.dev_cards.len(), 1 as usize);
    assert_eq!(*player_state.dev_cards.get(0).unwrap(), dev_card);
}

#[test]
fn purchase_from_reserved() {
    let mut sm = setup();
    let dev_card = sm.state.roomid_to_game_state.get(&1).unwrap().board_state.dev_cards[1]
        .cards_on_board[3]
        .clone();
    sm.transition_reserve(mb::reserve(1, 3)).unwrap();
    for entry in dev_card.price.entries.iter() {
        let game_state = sm.state.roomid_to_game_state.get_mut(&1).unwrap();
        let idx = entry.resource_type as usize;
        game_state.board_state.resources_on_board.entries[idx].number -= entry.number;
        game_state.userid_to_player_state.get_mut(&1).unwrap().resource.entries[idx].number +=
            entry.number;
    }
    sm.transition_purchase(mb::purchase(-1, 0)).unwrap();

    let game_state = sm.state.roomid_to_game_state.get(&1).unwrap();
    let board_state = &game_state.board_state;
    let player_state = game_state.userid_to_player_state.get(&1).unwrap();
    check_resource(&board_state.resources_on_board, 7, 7, 7, 7, 7, 4);
    check_resource(&player_state.resource, 0, 0, 0, 0, 0, 1);
    assert_eq!(player_state.dev_cards.len(), 1 as usize);
    assert_eq!(*player_state.dev_cards.get(0).unwrap(), dev_card);
    assert!(player_state.reserved_cards.is_empty());
}

#[test]
fn reserve_from_board() {
    let mut sm = setup();
    let dev_card = sm.state.roomid_to_game_state.get(&1).unwrap().board_state.dev_cards[0]
        .cards_on_board[1]
        .clone();
    sm.transition_reserve(mb::reserve(0, 1)).unwrap();

    let game_state = sm.state.roomid_to_game_state.get(&1).unwrap();
    let board_state = &game_state.board_state;
    let player_state = game_state.userid_to_player_state.get(&1).unwrap();

    assert_eq!(board_state.dev_cards[0].deck.len(), 35);
    assert_eq!(board_state.dev_cards[0].cards_on_board.len(), 4);
    assert_eq!(player_state.reserved_cards.len(), 1);
    assert_eq!(*player_state.reserved_cards.get(0).unwrap(), dev_card);
    check_resource(&board_state.resources_on_board, 7, 7, 7, 7, 7, 4);
    check_resource(&player_state.resource, 0, 0, 0, 0, 0, 1);
}

#[test]
fn reserve_from_deck() {
    let mut sm = setup();
    let dev_card = sm.state.roomid_to_game_state.get(&1).unwrap().board_state.dev_cards[0]
        .deck
        .get(35)
        .unwrap()
        .clone();
    sm.transition_reserve(mb::reserve(0, -1)).unwrap();

    let game_state = sm.state.roomid_to_game_state.get(&1).unwrap();
    let board_state = &game_state.board_state;
    let player_state = game_state.userid_to_player_state.get(&1).unwrap();

    assert_eq!(board_state.dev_cards[0].deck.len(), 35);
    assert_eq!(board_state.dev_cards[0].cards_on_board.len(), 4);
    assert_eq!(player_state.reserved_cards.len(), 1);
    assert_eq!(*player_state.reserved_cards.get(0).unwrap(), dev_card);
    check_resource(&board_state.resources_on_board, 7, 7, 7, 7, 7, 4);
    check_resource(&player_state.resource, 0, 0, 0, 0, 0, 1);
}
