use game_provider::fault::{EngineFault, Failure};
use game_provider::protocol::{Msg, RegisterRet, UserOperationArgs};
use game_provider::splendor::messages::{
    Development, Noble, Notice, Operation, ResourceEntry, ResourceMap, ResourceType,
    StartGameSettings, UserOperation,
};
use game_provider::splendor::msg_builder as mb;
use game_provider::splendor::msg_builder::SplendorMsg;
use game_provider::splendor::setup::{
    get_a_rand_dev, get_a_rand_noble, get_multi_rand_nums, standard_nobles,
};
use game_provider::splendor::state::{
    get_default_resource_map, BoardState, GameState, GlobalState, PlayerState,
};
use game_provider::splendor::state_machine::SplendorStateMachine;
use game_provider::state_machine::StateMachine;
use game_provider::util;
use rand::rngs::StdRng;
use rand::SeedableRng;

const SUPPLY: [i32; 6] = [7, 7, 7, 7, 7, 5];

fn engine(seed: u64) -> SplendorStateMachine {
    let mut sm = SplendorStateMachine::with_seed(seed);
    sm.transition_start_game_args(mb::start_game_args(
        1,
        vec![1, 2, 3],
        StartGameSettings { round_time: 15 },
    ))
    .unwrap();
    sm.state.cur_roomid = 1;
    sm.state.cur_userid = 1;
    sm
}

fn room(sm: &SplendorStateMachine) -> &GameState {
    sm.state.roomid_to_game_state.get(&1).unwrap()
}

fn numbers(map: &ResourceMap) -> Vec<i32> {
    map.entries.iter().map(|entry| entry.number).collect()
}

fn amount(map: &ResourceMap, kind: i32) -> i32 {
    map.entries.iter().filter(|entry| entry.resource_type == kind).map(|entry| entry.number).sum()
}

fn tokens_in_room(game: &GameState, kind: usize) -> i32 {
    let mut total = game.board_state.resources_on_board.entries[kind].number;
    for player in game.userid_to_player_state.values() {
        total += player.resource.entries[kind].number;
    }
    total
}

fn cards_in_room(game: &GameState) -> usize {
    let mut total = 0;
    for tier in game.board_state.dev_cards.iter() {
        total += tier.deck.len() + tier.cards_on_board.len();
    }
    for player in game.userid_to_player_state.values() {
        total += player.dev_cards.len() + player.reserved_cards.len();
    }
    total
}

fn notice_of(msg: &SplendorMsg) -> (i32, i32, i32, &Notice) {
    match msg.msg.as_ref().unwrap() {
        Msg::NotifyMsgArgs(args) => {
            (args.err, args.room_id, args.user_id, &args.custom.as_ref().unwrap().value.msg)
        }
        _ => panic!("not a notification"),
    }
}

fn prefund(sm: &mut SplendorStateMachine, user: u32, card: &Development) {
    let game = sm.state.roomid_to_game_state.get_mut(&1).unwrap();
    for entry in card.price.entries.iter() {
        let kind = entry.resource_type as usize;
        game.board_state.resources_on_board.entries[kind].number -= entry.number;
        game.userid_to_player_state.get_mut(&user).unwrap().resource.entries[kind].number +=
            entry.number;
    }
}

fn is_well_formed_card(card: &Development) -> bool {
    let mut seen = vec![false; 5];
    for entry in card.price.entries.iter() {
        if entry.resource_type < 0 || entry.resource_type >= 5 || entry.number < 0 {
            return false;
        }
        if seen[entry.resource_type as usize] {
            return false;
        }
        seen[entry.resource_type as usize] = true;
    }
    card.price.entries.len() <= 4
        && (0..5).contains(&card.resource_type)
        && (0..=5).contains(&card.points)
}

#[test]
fn a_new_room_is_set_up() {
    for seed in 0..20 {
        let sm = engine(seed);
        let game = room(&sm);
        assert_eq!(game.player_num, 3);
        assert_eq!(game.userids, vec![1, 2, 3]);
        assert_eq!(game.game_settings.round_time, 15);
        let board = &game.board_state;
        assert_eq!(board.dev_cards.len(), 3);
        assert_eq!(board.dev_cards[0].deck.len(), 36);
        assert_eq!(board.dev_cards[1].deck.len(), 26);
        assert_eq!(board.dev_cards[2].deck.len(), 16);
        for tier in board.dev_cards.iter() {
            assert_eq!(tier.cards_on_board.len(), 4);
            for card in tier.deck.iter().chain(tier.cards_on_board.iter()) {
                assert!(is_well_formed_card(card));
                assert!(!card.price.entries.iter().any(|entry| entry.resource_type == card.resource_type));
            }
        }
        assert_eq!(numbers(&board.resources_on_board), vec![7, 7, 7, 7, 7, 5]);
        for (kind, entry) in board.resources_on_board.entries.iter().enumerate() {
            assert_eq!(entry.resource_type, kind as i32);
        }
        for user in 1..=3 {
            let player = game.userid_to_player_state.get(&user).unwrap();
            assert_eq!(numbers(&player.resource), vec![0, 0, 0, 0, 0, 0]);
            assert!(player.dev_cards.is_empty());
            assert!(player.reserved_cards.is_empty());
            assert!(player.nobles.is_empty());
            assert_eq!(player.points, 0);
        }
        assert_eq!(cards_in_room(game), 90);
    }
}

fn check_noble_set(nobles: &Vec<Noble>) {
    assert_eq!(nobles.len(), 5);
    for (i, noble) in nobles.iter().enumerate() {
        assert_eq!(noble.points, 3);
        let (kinds, each) = if i < 3 { (3, 3) } else { (2, 4) };
        assert_eq!(noble.capital.entries.len(), kinds);
        for entry in noble.capital.entries.iter() {
            assert_eq!(entry.number, each);
            assert!((0..5).contains(&entry.resource_type));
        }
        for other in nobles.iter().skip(i + 1) {
            assert!(!noble.same_capital(other));
            assert!((0..5).any(|kind| amount(&noble.capital, kind) != amount(&other.capital, kind)));
        }
    }
}

#[test]
fn the_nobles_of_a_room_differ() {
    for seed in 0..200 {
        let mut rng = StdRng::seed_from_u64(seed);
        check_noble_set(&BoardState::rand_nobles(&mut rng));
    }
    check_noble_set(&standard_nobles());
}

#[test]
fn nobles_are_compared_by_what_they_ask_for() {
    let a = get_a_rand_noble(vec![0, 1, 2], vec![3, 3, 3]);
    let b = get_a_rand_noble(vec![2, 0, 1], vec![3, 3, 3]);
    let c = get_a_rand_noble(vec![0, 1, 3], vec![3, 3, 3]);
    let d = get_a_rand_noble(vec![0, 1], vec![4, 4]);
    assert!(a.same_capital(&b));
    assert!(!a.same_capital(&c));
    assert!(!a.same_capital(&d));
    assert_eq!(a.capital.amount_of(1), 3);
    assert_eq!(a.capital.amount_of(4), 0);
    assert_eq!(
        a.capital.entries,
        vec![
            ResourceEntry { resource_type: 0, number: 3 },
            ResourceEntry { resource_type: 1, number: 3 },
            ResourceEntry { resource_type: 2, number: 3 },
        ]
    );
    assert_eq!(a.points, 3);
}

#[test]
fn a_card_is_made_of_a_draw_and_a_template() {
    let card = get_a_rand_dev(vec![3, 0, 4, 1], &vec![2, 3, 1, 2]);
    assert_eq!(
        card.price.entries,
        vec![
            ResourceEntry { resource_type: 3, number: 2 },
            ResourceEntry { resource_type: 0, number: 3 },
            ResourceEntry { resource_type: 4, number: 1 },
        ]
    );
    assert_eq!(card.resource_type, 1);
    assert_eq!(card.points, 2);
    let free = get_a_rand_dev(vec![2], &vec![0]);
    assert!(free.price.entries.is_empty());
    assert_eq!(free.resource_type, 2);
    assert_eq!(free.points, 0);
}

#[test]
fn draws_are_distinct_and_shuffled() {
    let mut rng = StdRng::seed_from_u64(11);
    let mut orders = std::collections::HashSet::new();
    for _ in 0..200 {
        let nums = get_multi_rand_nums(&mut rng, 5, 0, 4);
        let mut sorted = nums.clone();
        sorted.sort();
        assert_eq!(sorted, vec![0, 1, 2, 3, 4]);
        orders.insert(nums);
    }
    assert!(orders.len() > 50);
    for num in 0..=5 {
        let nums = get_multi_rand_nums(&mut rng, num, 2, 6);
        assert_eq!(nums.len(), num);
        for (i, n) in nums.iter().enumerate() {
            assert!((2..=6).contains(n));
            assert!(!nums[..i].contains(n));
        }
    }
}

#[test]
fn tokens_are_conserved_by_takes() {
    let mut sm = engine(3);
    let takes: Vec<(i32, Vec<i32>)> = vec![
        (1, vec![0, 1, 2]),
        (2, vec![3, 3]),
        (3, vec![5, 5, 5]),
        (1, vec![0, 0, 0, 0, 0, 0, 0]),
        (2, vec![4, 9]),
        (3, vec![0, 1, 2, 3, 4, 5]),
        (7, vec![1]),
        (2, vec![]),
        (1, vec![5, 5, 5]),
    ];
    for (user, kinds) in takes {
        sm.state.cur_userid = user;
        let _ = sm.transition_take(mb::take(kinds));
        for kind in 0..6 {
            assert_eq!(tokens_in_room(room(&sm), kind), SUPPLY[kind]);
            assert!(room(&sm).board_state.resources_on_board.entries[kind].number >= 0);
        }
    }
    let game = room(&sm);
    assert_eq!(numbers(&game.board_state.resources_on_board), vec![5, 5, 5, 4, 6, 1]);
    assert_eq!(numbers(&game.userid_to_player_state.get(&1).unwrap().resource), vec![1, 1, 1, 0, 0, 0]);
    assert_eq!(numbers(&game.userid_to_player_state.get(&2).unwrap().resource), vec![0, 0, 0, 2, 0, 0]);
    assert_eq!(numbers(&game.userid_to_player_state.get(&3).unwrap().resource), vec![1, 1, 1, 1, 1, 4]);
}

#[test]
fn nothing_is_taken_from_an_empty_counter() {
    let mut sm = engine(5);
    for _ in 0..7 {
        sm.transition_take(mb::take(vec![2])).unwrap();
    }
    assert_eq!(room(&sm).board_state.resources_on_board.entries[2].number, 0);
    let before = room(&sm).get_pub_state();
    assert_eq!(sm.transition_take(mb::take(vec![2])), Err(EngineFault::InvariantViolation));
    assert_eq!(sm.transition_take(mb::take(vec![0, 2])), Err(EngineFault::InvariantViolation));
    assert_eq!(room(&sm).get_pub_state(), before);
    assert_eq!(
        sm.state.roomid_to_game_state.get_mut(&1).unwrap().board_state.take_resource(2),
        Err(EngineFault::InvariantViolation)
    );
    assert_eq!(room(&sm).get_pub_state(), before);
}

#[test]
fn a_take_is_all_or_nothing() {
    let mut sm = engine(5);
    let before = room(&sm).get_pub_state();
    assert_eq!(
        sm.transition_take(mb::take(vec![1, 1, 1, 1, 1, 1, 1, 1])),
        Err(EngineFault::InvariantViolation)
    );
    assert_eq!(sm.transition_take(mb::take(vec![0, 6])), Err(EngineFault::IllegalOperation));
    assert_eq!(sm.transition_take(mb::take(vec![-1])), Err(EngineFault::IllegalOperation));
    assert_eq!(room(&sm).get_pub_state(), before);
    sm.state.cur_userid = 9;
    assert_eq!(sm.transition_take(mb::take(vec![0])), Err(EngineFault::NotFound));
    sm.state.cur_userid = 1;
    sm.state.cur_roomid = 2;
    assert_eq!(sm.transition_take(mb::take(vec![0])), Err(EngineFault::NotFound));
    assert_eq!(room(&sm).get_pub_state(), before);
}

#[test]
fn a_take_tells_the_room_its_state() {
    let mut sm = engine(8);
    let msgs = sm.transition_take(mb::take(vec![0, 0])).unwrap();
    assert_eq!(msgs.len(), 1);
    assert_eq!(msgs[0].sequence_id, 0);
    let (err, room_id, user_id, notice) = notice_of(&msgs[0]);
    assert_eq!((err, room_id, user_id), (0, 1, 0));
    assert_eq!(*notice, Notice::State(room(&sm).get_pub_state()));
    match msgs[0].msg.as_ref().unwrap() {
        Msg::NotifyMsgArgs(args) => assert_eq!(
            args.custom.as_ref().unwrap().type_url,
            "type.googleapis.com/Splendor.NotifyMsg"
        ),
        _ => unreachable!(),
    }
}

#[test]
fn the_window_stays_full_until_the_deck_is_exhausted() {
    let mut sm = engine(13);
    for taken in 1..=16 {
        let top = room(&sm).board_state.dev_cards[2].deck.last().unwrap().clone();
        let shown = room(&sm).board_state.dev_cards[2].cards_on_board[1].clone();
        sm.transition_reserve(mb::reserve(2, 1)).unwrap();
        let tier = &room(&sm).board_state.dev_cards[2];
        assert_eq!(tier.cards_on_board.len(), 4);
        assert_eq!(tier.deck.len(), 16 - taken);
        assert_eq!(tier.cards_on_board[1], top);
        let player = room(&sm).userid_to_player_state.get(&1).unwrap();
        assert_eq!(*player.reserved_cards.last().unwrap(), shown);
        assert_eq!(cards_in_room(room(&sm)), 90);
    }
    for left in (0..4).rev() {
        let shown = room(&sm).board_state.dev_cards[2].cards_on_board[0].clone();
        sm.transition_reserve(mb::reserve(2, 0)).unwrap();
        let tier = &room(&sm).board_state.dev_cards[2];
        assert_eq!(tier.cards_on_board.len(), left);
        assert_eq!(tier.deck.len(), 0);
        let player = room(&sm).userid_to_player_state.get(&1).unwrap();
        assert_eq!(*player.reserved_cards.last().unwrap(), shown);
    }
    assert_eq!(sm.transition_reserve(mb::reserve(2, 0)), Err(EngineFault::NotFound));
    assert_eq!(sm.transition_reserve(mb::reserve(2, -1)), Err(EngineFault::IllegalOperation));
    let game = room(&sm);
    let player = game.userid_to_player_state.get(&1).unwrap();
    assert_eq!(player.reserved_cards.len(), 20);
    assert_eq!(game.board_state.resources_on_board.entries[5].number, 0);
    assert_eq!(player.resource.entries[5].number, 5);
    assert_eq!(game.get_pub_state().player_states[0].reserved_num, 20);
    assert_eq!(game.get_pub_state().dev_level3.deck_num, 0);
}

#[test]
fn a_reservation_names_a_tier_and_a_card_that_exist() {
    let mut sm = engine(2);
    let before = room(&sm).get_pub_state();
    assert_eq!(sm.transition_reserve(mb::reserve(3, 0)), Err(EngineFault::NotFound));
    assert_eq!(sm.transition_reserve(mb::reserve(-1, 0)), Err(EngineFault::NotFound));
    assert_eq!(sm.transition_reserve(mb::reserve(0, 4)), Err(EngineFault::NotFound));
    sm.state.cur_userid = 4;
    assert_eq!(sm.transition_reserve(mb::reserve(0, 0)), Err(EngineFault::NotFound));
    assert_eq!(room(&sm).get_pub_state(), before);
}

#[test]
fn the_top_of_a_deck_is_reserved_in_secret() {
    let mut sm = engine(21);
    sm.state.cur_userid = 2;
    let top = room(&sm).board_state.dev_cards[1].deck.last().unwrap().clone();
    let request = UserOperation { operation: Operation::Reserve(mb::reserve(1, -7)) };
    let msgs = sm.transition_user_operation(request.clone()).unwrap();
    assert_eq!(msgs.len(), 3);

    let (err, room_id, user_id, notice) = notice_of(&msgs[0]);
    assert_eq!((err, room_id, user_id), (0, 1, 2));
    assert_eq!(*notice, mb::reserve_rsp(top.clone()).msg);

    let (_, room_id, user_id, notice) = notice_of(&msgs[1]);
    assert_eq!((room_id, user_id), (1, 0));
    let public = room(&sm).get_pub_state();
    assert_eq!(*notice, Notice::State(public.clone()));
    assert_eq!(public.player_states[1].reserved_num, 1);
    assert_eq!(public.dev_level2.deck_num, 25);
    assert_eq!(public.dev_level2.cards.len(), 4);

    let (_, room_id, user_id, notice) = notice_of(&msgs[2]);
    assert_eq!((room_id, user_id), (1, -2));
    assert_eq!(*notice, Notice::LastUserOperation(request));

    let player = room(&sm).userid_to_player_state.get(&2).unwrap();
    assert_eq!(player.reserved_cards, vec![top]);
    assert_eq!(player.resource.entries[5].number, 1);
}

#[test]
fn a_face_up_card_is_reserved_in_public() {
    let mut sm = engine(21);
    let msgs = sm.transition_reserve(mb::reserve(0, 3)).unwrap();
    assert_eq!(msgs.len(), 1);
    let (_, room_id, user_id, notice) = notice_of(&msgs[0]);
    assert_eq!((room_id, user_id), (1, 0));
    assert_eq!(*notice, Notice::State(room(&sm).get_pub_state()));
}

#[test]
fn a_purchase_pays_the_price_to_the_board() {
    let mut sm = engine(34);
    sm.state.cur_userid = 3;
    sm.transition_take(mb::take(vec![0, 1, 2, 3, 4, 0, 1, 2, 3, 4, 0, 1, 2, 3, 4])).unwrap();
    let card = room(&sm).board_state.dev_cards[0].cards_on_board[0].clone();
    let top = room(&sm).board_state.dev_cards[0].deck.last().unwrap().clone();
    prefund(&mut sm, 3, &card);
    for kind in 0..5 {
        let price = amount(&card.price, kind as i32);
        let game = room(&sm);
        assert_eq!(game.userid_to_player_state.get(&3).unwrap().resource.entries[kind].number, 3 + price);
        assert_eq!(game.board_state.resources_on_board.entries[kind].number, 4 - price);
    }
    sm.transition_purchase(mb::purchase(0, 0)).unwrap();
    let game = room(&sm);
    let player = game.userid_to_player_state.get(&3).unwrap();
    assert_eq!(numbers(&player.resource), vec![3, 3, 3, 3, 3, 0]);
    assert_eq!(numbers(&game.board_state.resources_on_board), vec![4, 4, 4, 4, 4, 5]);
    assert_eq!(player.dev_cards, vec![card.clone()]);
    assert_eq!(player.points, card.points);
    assert_eq!(game.board_state.dev_cards[0].cards_on_board[0], top);
    assert_eq!(game.board_state.dev_cards[0].deck.len(), 35);
    assert_eq!(cards_in_room(game), 90);
    let public = player.get_pub_state();
    for kind in 0..6 {
        let expected = if kind as i32 == card.resource_type { 1 } else { 0 };
        assert_eq!(public.development.entries[kind].number, expected);
    }
    assert_eq!(public.points, card.points);
}

#[test]
fn a_purchase_that_is_not_covered_is_refused() {
    let mut sm = engine(1);
    let game = room(&sm);
    let (tier, slot) = (0..3)
        .flat_map(|tier| (0..4).map(move |slot| (tier, slot)))
        .find(|(tier, slot)| {
            !game.board_state.dev_cards[*tier].cards_on_board[*slot].price.entries.is_empty()
        })
        .unwrap();
    let before = game.get_pub_state();
    assert_eq!(
        sm.transition_purchase(mb::purchase(tier as i32, slot as i32)),
        Err(EngineFault::InvariantViolation)
    );
    assert_eq!(sm.transition_purchase(mb::purchase(3, 0)), Err(EngineFault::NotFound));
    assert_eq!(sm.transition_purchase(mb::purchase(0, 4)), Err(EngineFault::NotFound));
    assert_eq!(sm.transition_purchase(mb::purchase(0, -1)), Err(EngineFault::NotFound));
    assert_eq!(sm.transition_purchase(mb::purchase(-1, 0)), Err(EngineFault::NotFound));
    assert_eq!(room(&sm).get_pub_state(), before);
}

fn card_yielding(kind: i32, points: i32) -> Development {
    Development { price: ResourceMap { entries: vec![] }, resource_type: kind, points }
}

#[test]
fn nobles_visit_the_buyer_whose_production_meets_their_capital() {
    let mut sm = engine(55);
    {
        let game = sm.state.roomid_to_game_state.get_mut(&1).unwrap();
        game.board_state.nobles_on_board = vec![
            get_a_rand_noble(vec![0, 1, 2], vec![3, 3, 3]),
            get_a_rand_noble(vec![1, 2, 3], vec![3, 3, 3]),
            get_a_rand_noble(vec![2, 3, 4], vec![3, 3, 3]),
            get_a_rand_noble(vec![1, 0], vec![4, 4]),
            get_a_rand_noble(vec![2, 1], vec![4, 4]),
        ];
        let player = game.userid_to_player_state.get_mut(&1).unwrap();
        for kind in [0, 0, 0, 0, 1, 1, 1, 2, 2, 2, 2] {
            let mut card = game.board_state.dev_cards[0].deck.pop().unwrap();
            card.resource_type = kind;
            player.points += card.points;
            player.dev_cards.push(card);
        }
        game.board_state.dev_cards[0].cards_on_board[2] = card_yielding(1, 1);
    }
    let points_before = room(&sm).userid_to_player_state.get(&1).unwrap().points;
    sm.transition_purchase(mb::purchase(0, 2)).unwrap();
    let game = room(&sm);
    let player = game.userid_to_player_state.get(&1).unwrap();
    assert_eq!(
        game.board_state.nobles_on_board,
        vec![
            get_a_rand_noble(vec![1, 2, 3], vec![3, 3, 3]),
            get_a_rand_noble(vec![2, 3, 4], vec![3, 3, 3]),
        ]
    );
    assert_eq!(
        player.nobles,
        vec![
            get_a_rand_noble(vec![2, 1], vec![4, 4]),
            get_a_rand_noble(vec![1, 0], vec![4, 4]),
            get_a_rand_noble(vec![0, 1, 2], vec![3, 3, 3]),
        ]
    );
    assert_eq!(player.points, points_before + 1 + 9);
    let card_points: i32 = player.dev_cards.iter().map(|card| card.points).sum();
    let noble_points: i32 = player.nobles.iter().map(|noble| noble.points).sum();
    assert_eq!(player.points, card_points + noble_points);
    assert_eq!(numbers(&player.production()), vec![4, 4, 4, 0, 0, 0]);
    assert_eq!(game.get_pub_state().nobles_on_board.len(), 2);
    assert_eq!(game.get_pub_state().player_states[0].nobles.len(), 3);
}

#[test]
fn no_noble_visits_before_its_capital_is_met() {
    let mut sm = engine(55);
    {
        let game = sm.state.roomid_to_game_state.get_mut(&1).unwrap();
        game.board_state.dev_cards[0].cards_on_board[0] = card_yielding(0, 0);
    }
    sm.transition_purchase(mb::purchase(0, 0)).unwrap();
    let game = room(&sm);
    assert_eq!(game.board_state.nobles_on_board.len(), 5);
    assert!(game.userid_to_player_state.get(&1).unwrap().nobles.is_empty());
    assert_eq!(game.userid_to_player_state.get(&1).unwrap().points, 0);
}

#[test]
fn a_game_can_be_replayed_from_its_seed() {
    let play = |seed: u64| {
        let mut sm = SplendorStateMachine::with_seed(seed);
        let mut told = sm
            .transition_start_game_args(mb::start_game_args(
                1,
                vec![4, 2, 9],
                StartGameSettings { round_time: 30 },
            ))
            .unwrap();
        let steps = vec![
            (4, Operation::Take(mb::take(vec![0, 1, 2]))),
            (2, Operation::Reserve(mb::reserve(0, -1))),
            (9, Operation::Reserve(mb::reserve(2, 3))),
            (4, Operation::Purchase(mb::purchase(0, 1))),
            (2, Operation::Purchase(mb::purchase(-1, 0))),
            (9, Operation::Take(mb::take(vec![5]))),
        ];
        for (user, operation) in steps {
            let msg = UserOperationArgs {
                room_id: 1,
                user_id: user,
                custom: Some(util::pack(UserOperation { operation }, String::from("op"))),
            };
            if let Ok(msgs) = sm.transition_user_operation_args(msg) {
                told.extend(msgs);
            }
        }
        (sm.state.roomid_to_game_state.get(&1).unwrap().get_pub_state(), told)
    };
    let (first, told_first) = play(99);
    let (second, told_second) = play(99);
    assert_eq!(first, second);
    assert_eq!(told_first, told_second);
    assert_eq!(first.player_states.len(), 3);
    let (other, _) = play(100);
    assert_ne!(first, other);
}

#[test]
fn the_public_state_lists_the_players_in_the_order_of_the_roster() {
    let mut sm = SplendorStateMachine::with_seed(4);
    sm.transition_start_game_args(mb::start_game_args(
        6,
        vec![30, 10, 30, 20],
        StartGameSettings { round_time: 15 },
    ))
    .unwrap();
    sm.state.cur_roomid = 6;
    for (user, kind) in [(30, 0), (10, 1), (20, 2)] {
        sm.state.cur_userid = user;
        sm.transition_take(mb::take(vec![kind])).unwrap();
    }
    let game = sm.state.roomid_to_game_state.get(&6).unwrap();
    assert_eq!(game.player_num, 4);
    assert_eq!(game.userids, vec![30, 10, 20]);
    let public = game.get_pub_state();
    assert_eq!(public.player_states.len(), 3);
    assert_eq!(numbers(&public.player_states[0].resource), vec![1, 0, 0, 0, 0, 0]);
    assert_eq!(numbers(&public.player_states[1].resource), vec![0, 1, 0, 0, 0, 0]);
    assert_eq!(numbers(&public.player_states[2].resource), vec![0, 0, 1, 0, 0, 0]);
    assert_eq!(public.dev_level1.deck_num, 36);
    assert_eq!(public.dev_level2.deck_num, 26);
    assert_eq!(public.dev_level3.deck_num, 16);
    assert_eq!(public.dev_level1.cards, game.board_state.dev_cards[0].cards_on_board);
}

#[test]
fn a_room_is_opened_once() {
    let mut sm = engine(6);
    let before = room(&sm).get_pub_state();
    let again = sm.transition_start_game_args(mb::start_game_args(
        1,
        vec![5, 6],
        StartGameSettings { round_time: 15 },
    ));
    assert_eq!(again, Err(Failure::Fault(EngineFault::InvariantViolation)));
    assert_eq!(room(&sm).get_pub_state(), before);
    let empty = sm.transition_start_game_args(mb::start_game_args(
        2,
        vec![],
        StartGameSettings { round_time: 15 },
    ));
    assert_eq!(empty, Err(Failure::Fault(EngineFault::IllegalOperation)));
    assert!(!sm.state.roomid_to_game_state.contains_key(&2));
    let mut args = mb::start_game_args(3, vec![1], StartGameSettings { round_time: 15 });
    args.custom = None;
    assert_eq!(
        sm.transition_start_game_args(args),
        Err(Failure::Fault(EngineFault::IllegalOperation))
    );
    assert_eq!(sm.state.roomid_to_game_state.len(), 1);
}

#[test]
fn the_game_starts_with_a_player_of_the_roster() {
    let mut seats = std::collections::HashSet::new();
    for seed in 0..60 {
        let mut sm = SplendorStateMachine::with_seed(seed);
        let msgs = sm
            .transition_start_game_args(mb::start_game_args(
                1,
                vec![1, 2, 3],
                StartGameSettings { round_time: 15 },
            ))
            .unwrap();
        assert_eq!(msgs.len(), 1);
        let (err, room_id, user_id, notice) = notice_of(&msgs[0]);
        assert_eq!((err, room_id, user_id), (0, 1, 0));
        match notice {
            Notice::GameStart(start) => {
                assert!((0..3).contains(&start.first_player));
                seats.insert(start.first_player);
                assert_eq!(start.state, room(&sm).get_pub_state());
            }
            _ => panic!("not a game start"),
        }
    }
    assert_eq!(seats.len(), 3);
}

#[test]
fn an_operation_is_echoed_to_the_other_players() {
    let mut sm = engine(17);
    let msg = UserOperationArgs {
        room_id: 1,
        user_id: 3,
        custom: Some(util::pack(
            UserOperation { operation: Operation::Take(mb::take(vec![4, 4])) },
            String::from("type.googleapis.com/Splendor.UserOperation"),
        )),
    };
    let msgs = sm.transition_user_operation_args(msg).unwrap();
    assert_eq!(sm.state.cur_roomid, 1);
    assert_eq!(sm.state.cur_userid, 3);
    assert_eq!(msgs.len(), 2);
    let (_, _, user_id, notice) = notice_of(&msgs[0]);
    assert_eq!(user_id, 0);
    assert_eq!(*notice, Notice::State(room(&sm).get_pub_state()));
    let (err, room_id, user_id, notice) = notice_of(&msgs[1]);
    assert_eq!((err, room_id, user_id), (0, 1, -3));
    assert_eq!(
        *notice,
        Notice::LastUserOperation(UserOperation { operation: Operation::Take(mb::take(vec![4, 4])) })
    );
    assert_eq!(room(&sm).userid_to_player_state.get(&3).unwrap().resource.entries[4].number, 2);

    let refused = UserOperationArgs {
        room_id: 8,
        user_id: 2,
        custom: Some(util::pack(
            UserOperation { operation: Operation::Take(mb::take(vec![0])) },
            String::new(),
        )),
    };
    assert_eq!(
        sm.transition_user_operation_args(refused),
        Err(Failure::Fault(EngineFault::NotFound))
    );
    assert_eq!((sm.state.cur_roomid, sm.state.cur_userid), (8, 2));
    let bare: UserOperationArgs<UserOperation> =
        UserOperationArgs { room_id: 1, user_id: 2, custom: None };
    assert_eq!(
        sm.transition_user_operation_args(bare),
        Err(Failure::Fault(EngineFault::IllegalOperation))
    );
}

#[test]
fn a_user_whose_id_has_no_negative_can_do_nothing() {
    let mut sm = engine(17);
    sm.state.cur_userid = i32::MIN;
    let before = room(&sm).get_pub_state();
    assert_eq!(
        sm.transition_user_operation(UserOperation {
            operation: Operation::Take(mb::take(vec![0]))
        }),
        Err(EngineFault::IllegalOperation)
    );
    assert_eq!(room(&sm).get_pub_state(), before);
}

#[test]
fn a_refused_registration_is_reported() {
    let mut sm = SplendorStateMachine::new();
    assert_eq!(sm.transition_register_ret(RegisterRet { err: 0 }), Ok(vec![]));
    assert_eq!(
        sm.transition_register_ret(RegisterRet { err: 3 }),
        Err(Failure::RegistrationRefused(3))
    );
    assert_eq!(
        sm.transition_register_ret(RegisterRet { err: -1 }),
        Err(Failure::RegistrationRefused(-1))
    );
    assert!(sm.state.roomid_to_game_state.is_empty());
}

#[test]
fn ledgers_move_single_tokens_and_prices() {
    let mut ledger = get_default_resource_map();
    assert_eq!(numbers(&ledger), vec![0; 6]);
    assert_eq!(ledger.take_one(0), Err(EngineFault::InvariantViolation));
    assert_eq!(ledger.take_one(6), Err(EngineFault::IllegalOperation));
    assert_eq!(ledger.take_one(-2), Err(EngineFault::IllegalOperation));
    ledger.put_one(5);
    ledger.put_one(5);
    ledger.put_one(1);
    assert_eq!(numbers(&ledger), vec![0, 1, 0, 0, 0, 2]);
    assert_eq!(ledger.take_one(5), Ok(()));
    assert_eq!(numbers(&ledger), vec![0, 1, 0, 0, 0, 1]);
    let price = ResourceMap {
        entries: vec![
            ResourceEntry { resource_type: 3, number: 2 },
            ResourceEntry { resource_type: 1, number: 1 },
        ],
    };
    assert!(!ledger.covers(&price));
    ledger.credit(&price);
    ledger.credit(&price);
    assert_eq!(numbers(&ledger), vec![0, 3, 0, 4, 0, 1]);
    assert!(ledger.covers(&price));
    ledger.debit(&price);
    assert_eq!(numbers(&ledger), vec![0, 2, 0, 2, 0, 1]);
    assert_eq!(price.amount_of(3), 2);
    assert_eq!(price.amount_of(0), 0);

    let mut player = PlayerState::new();
    player.take_resource(4);
    player.resource.credit(&price);
    player.spend_resource(&price);
    assert_eq!(numbers(&player.resource), vec![0, 0, 0, 0, 1, 0]);
}

#[test]
fn the_registry_starts_empty() {
    let state = GlobalState::new();
    assert!(state.roomid_to_game_state.is_empty());
    assert_eq!(state.cur_roomid, -1);
    assert_eq!(state.cur_userid, -1);
}

#[test]
fn kinds_have_codes() {
    let kinds = [
        ResourceType::Agate,
        ResourceType::Emerald,
        ResourceType::Diamond,
        ResourceType::Ruby,
        ResourceType::Sapphire,
        ResourceType::Gold,
    ];
    for (code, kind) in kinds.iter().enumerate() {
        assert_eq!(kind.code(), code as i32);
        assert_eq!(*kind as i32, code as i32);
        assert_eq!(ResourceType::from_code(code as i32), Some(*kind));
    }
    assert_eq!(ResourceType::from_code(6), None);
    assert_eq!(ResourceType::from_code(-1), None);
}
