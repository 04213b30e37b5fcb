use game_provider::fault::{EngineFault, Failure};
use game_provider::protocol::{Msg, UserOperationArgs};
use game_provider::state_machine::StateMachine;
use game_provider::uno::card::{shuffle_pile, Deck};
use game_provider::uno::messages::{
    Card, CardColor, CardText, Draw, Notice, Operation, Play, Skip, StartGameSettings,
    UserOperation,
};
use game_provider::uno::msg_builder as mb;
use game_provider::uno::msg_builder::UnoMsg;
use game_provider::uno::state::{GameState, GlobalState, PlayerState};
use game_provider::uno::state_machine::UnoStateMachine;
use game_provider::util;
use rand::rngs::StdRng;
use rand::SeedableRng;
use std::collections::VecDeque;

fn count(cards: &VecDeque<Card>, color: i32, text: i32) -> usize {
    cards.iter().filter(|card| card.color == color && card.text == text).count()
}

fn notice_of(msg: &UnoMsg) -> (i32, i32, i32, &Notice) {
    match msg.msg.as_ref().unwrap() {
        Msg::NotifyMsgArgs(args) => {
            (args.err, args.room_id, args.user_id, &args.custom.as_ref().unwrap().value.msg)
        }
        _ => panic!("not a notification"),
    }
}

fn engine(seed: u64) -> UnoStateMachine {
    let mut sm = UnoStateMachine::with_seed(seed);
    let args = game_provider::msg_builder::start_game_args(
        4,
        vec![10, 20, 30],
        StartGameSettings { round_time: 15 },
        String::from("type.googleapis.com/Uno.StartGameSettings"),
    );
    sm.transition_start_game_args(args).unwrap();
    sm.state.cur_roomid = 4;
    sm.state.cur_userid = 20;
    sm
}

fn room(sm: &UnoStateMachine) -> &GameState {
    sm.state.roomid_to_game_state.get(&4).unwrap()
}

#[test]
fn a_new_deck_has_the_cards_of_the_game() {
    let mut rng = StdRng::seed_from_u64(1);
    let deck = Deck::new(&mut rng);
    assert_eq!(deck.pile.len(), 108);
    assert!(deck.discard_pile.is_empty());
    for color in 0..4 {
        assert_eq!(count(&deck.pile, color, 0), 1);
        for text in 1..=12 {
            assert_eq!(count(&deck.pile, color, text), 2);
        }
        assert_eq!(count(&deck.pile, color, 13), 0);
    }
    assert_eq!(count(&deck.pile, CardColor::Black as i32, CardText::Wild as i32), 4);
    assert_eq!(count(&deck.pile, CardColor::Black as i32, CardText::DrawFour as i32), 4);
    assert_eq!(CardColor::Black.code(), 4);
    assert_eq!(CardText::DrawTwo.code(), 12);
    assert_eq!(CardText::Empty.code(), 15);

    let other = Deck::new(&mut StdRng::seed_from_u64(2));
    assert_ne!(deck.pile, other.pile);
    let again = Deck::new(&mut StdRng::seed_from_u64(1));
    assert_eq!(deck, again);
}

#[test]
fn shuffling_keeps_the_cards() {
    let mut rng = StdRng::seed_from_u64(8);
    let sorted: VecDeque<Card> =
        (0..40).map(|i| Card { color: i % 4, text: i / 4 }).collect();
    let mut pile = sorted.clone();
    shuffle_pile(&mut rng, &mut pile);
    assert_ne!(pile, sorted);
    let mut back: Vec<Card> = pile.into_iter().collect();
    back.sort_by_key(|card| card.text * 4 + card.color);
    assert_eq!(back, sorted.into_iter().collect::<Vec<Card>>());
}

#[test]
fn cards_are_drawn_from_the_top() {
    let mut rng = StdRng::seed_from_u64(3);
    let mut deck = Deck::new(&mut rng);
    let order: Vec<Card> = deck.pile.iter().cloned().collect();
    assert_eq!(deck.draw(&mut rng), Ok(order[0]));
    assert_eq!(deck.draw_num(3, &mut rng), Ok(order[1..4].to_vec()));
    assert_eq!(deck.pile.len(), 104);
    assert_eq!(deck.draw_num(0, &mut rng), Ok(vec![]));
    assert_eq!(deck.draw_num(-1, &mut rng), Err(EngineFault::IllegalOperation));
    assert_eq!(deck.draw_num(105, &mut rng), Err(EngineFault::InvariantViolation));
    assert_eq!(deck.pile.len(), 104);
    deck.put_to_bottom(order[0]);
    assert_eq!(*deck.pile.back().unwrap(), order[0]);
    deck.discard(order[1]);
    deck.discard(order[2]);
    assert_eq!(deck.discard_pile, VecDeque::from(vec![order[2], order[1]]));
}

#[test]
fn the_discard_pile_becomes_the_pile() {
    let mut rng = StdRng::seed_from_u64(3);
    let mut deck = Deck { pile: VecDeque::new(), discard_pile: VecDeque::new() };
    assert_eq!(deck.draw(&mut rng), Err(EngineFault::InvariantViolation));
    let one = Card { color: 1, text: 5 };
    let two = Card { color: 2, text: 6 };
    deck.put_to_bottom(one);
    deck.discard(two);
    deck.discard(two);
    assert_eq!(deck.draw_num(4, &mut rng), Err(EngineFault::InvariantViolation));
    assert_eq!(deck.draw_num(3, &mut rng), Ok(vec![one, two, two]));
    assert!(deck.pile.is_empty());
    assert!(deck.discard_pile.is_empty());
}

#[test]
fn hands_are_dealt_by_turns() {
    let mut rng = StdRng::seed_from_u64(5);
    let mut deck = Deck::new(&mut rng);
    let order: Vec<Card> = deck.pile.iter().cloned().collect();
    let hands = deck.deal_init_handcards(3, &mut rng).unwrap();
    assert_eq!(hands.len(), 3);
    for player in 0..3 {
        assert_eq!(hands[player].len(), 7);
        for round in 0..7 {
            assert_eq!(hands[player][round], order[round * 3 + player]);
        }
    }
    assert_eq!(deck.pile.len(), 108 - 21);
    assert_eq!(*deck.pile.front().unwrap(), order[21]);
    assert_eq!(deck.deal_init_handcards(13, &mut rng), Err(EngineFault::InvariantViolation));
    assert_eq!(deck.pile.len(), 87);
    assert_eq!(deck.deal_init_handcards(0, &mut rng), Ok(vec![]));
}

#[test]
fn a_game_opens_with_a_hand_for_each_player() {
    for seed in 0..40 {
        let mut sm = UnoStateMachine::with_seed(seed);
        let msgs = sm
            .transition_start_game_args(game_provider::msg_builder::start_game_args(
                4,
                vec![10, 20, 10, 30],
                StartGameSettings { round_time: 15 },
                String::new(),
            ))
            .unwrap();
        let game = room(&sm);
        assert_eq!(game.userids, vec![10, 20, 30]);
        assert_eq!(game.player_num, 4);
        assert_eq!(msgs.len(), 3);
        let mut shown = None;
        for (seat, msg) in msgs.iter().enumerate() {
            let (err, room_id, user_id, notice) = notice_of(msg);
            assert_eq!((err, room_id), (0, 4));
            assert_eq!(user_id as u32, game.userids[seat]);
            match notice {
                Notice::GameStart(start) => {
                    assert_eq!(start.init_handcards.len(), 7);
                    assert_ne!(start.flipped_card.color, 4);
                    assert_ne!(start.flipped_card.text, 12);
                    assert_ne!(start.flipped_card.text, 14);
                    assert!(start.first_player < 4);
                    let this = (start.flipped_card, start.first_player);
                    assert_eq!(*shown.get_or_insert(this), this);
                }
                _ => panic!("not a game start"),
            }
        }
        assert_eq!(game.deck.pile.len() + game.deck.discard_pile.len(), 108 - 28 - 1);
        for player in game.userid_to_player_state.values() {
            assert_eq!(player.handcards_num, 7);
        }
    }
}

#[test]
fn a_room_of_cards_is_opened_once() {
    let mut sm = engine(9);
    let again = game_provider::msg_builder::start_game_args(
        4,
        vec![1],
        StartGameSettings { round_time: 15 },
        String::new(),
    );
    assert_eq!(
        sm.transition_start_game_args(again),
        Err(Failure::Fault(EngineFault::InvariantViolation))
    );
    let nobody = game_provider::msg_builder::start_game_args(
        5,
        vec![],
        StartGameSettings { round_time: 15 },
        String::new(),
    );
    assert_eq!(
        sm.transition_start_game_args(nobody),
        Err(Failure::Fault(EngineFault::IllegalOperation))
    );
    let crowd = game_provider::msg_builder::start_game_args(
        6,
        (1..=16).collect(),
        StartGameSettings { round_time: 15 },
        String::new(),
    );
    assert_eq!(
        sm.transition_start_game_args(crowd),
        Err(Failure::Fault(EngineFault::InvariantViolation))
    );
    assert_eq!(sm.state.roomid_to_game_state.len(), 1);
}

#[test]
fn a_player_who_draws_is_told_the_cards() {
    let mut sm = engine(12);
    let top: Vec<Card> = room(&sm).deck.pile.iter().take(2).cloned().collect();
    let left = room(&sm).deck.pile.len();
    let msgs = sm.transition_draw(Draw { number: 2 }).unwrap();
    assert_eq!(msgs.len(), 2);
    let (err, room_id, user_id, notice) = notice_of(&msgs[0]);
    assert_eq!((err, room_id, user_id), (0, 4, 0));
    assert_eq!(*notice, mb::draw(2).msg);
    let (err, room_id, user_id, notice) = notice_of(&msgs[1]);
    assert_eq!((err, room_id, user_id), (0, 4, 20));
    assert_eq!(*notice, mb::draw_rsp(top).msg);
    assert_eq!(room(&sm).userid_to_player_state.get(&20).unwrap().handcards_num, 9);
    assert_eq!(room(&sm).userid_to_player_state.get(&10).unwrap().handcards_num, 7);
    assert_eq!(room(&sm).deck.pile.len(), left - 2);

    assert_eq!(sm.transition_draw(Draw { number: -1 }), Err(EngineFault::IllegalOperation));
    assert_eq!(sm.transition_draw(Draw { number: 200 }), Err(EngineFault::InvariantViolation));
    sm.state.cur_userid = 21;
    assert_eq!(sm.transition_draw(Draw { number: 1 }), Err(EngineFault::NotFound));
    sm.state.cur_userid = 20;
    sm.state.cur_roomid = 5;
    assert_eq!(sm.transition_draw(Draw { number: 1 }), Err(EngineFault::NotFound));
    sm.state.cur_roomid = 4;
    assert_eq!(room(&sm).userid_to_player_state.get(&20).unwrap().handcards_num, 9);
    assert_eq!(room(&sm).deck.pile.len(), left - 2);

    sm.state.roomid_to_game_state.get_mut(&4).unwrap().userid_to_player_state.insert(
        20,
        PlayerState { handcards_num: i32::MAX - 1 },
    );
    assert_eq!(sm.transition_draw(Draw { number: 2 }), Err(EngineFault::InvariantViolation));
    assert_eq!(room(&sm).deck.pile.len(), left - 2);
}

#[test]
fn the_room_is_told_of_a_pass() {
    let mut sm = engine(12);
    let msgs = sm.transition_skip(Skip {}).unwrap();
    assert_eq!(msgs.len(), 1);
    let (err, room_id, user_id, notice) = notice_of(&msgs[0]);
    assert_eq!((err, room_id, user_id), (0, 4, 0));
    assert_eq!(*notice, mb::skip().msg);
}

#[test]
fn the_last_card_of_a_hand_ends_the_game() {
    let mut sm = engine(12);
    let card = Card { color: 2, text: 7 };
    for left in (1..7).rev() {
        let msgs = sm.transition_play(Play { card, next_color: 2 }).unwrap();
        assert_eq!(msgs.len(), 1);
        let (err, room_id, user_id, notice) = notice_of(&msgs[0]);
        assert_eq!((err, room_id, user_id), (0, 4, 0));
        assert_eq!(*notice, mb::play(card, 2).msg);
        assert_eq!(room(&sm).userid_to_player_state.get(&20).unwrap().handcards_num, left);
        assert_eq!(*room(&sm).deck.discard_pile.front().unwrap(), card);
        assert_eq!(room(&sm).deck.discard_pile.len() as i32, 7 - left);
    }
    let msgs = sm.transition_play(Play { card, next_color: 3 }).unwrap();
    assert_eq!(msgs.len(), 2);
    let (_, _, user_id, notice) = notice_of(&msgs[0]);
    assert_eq!(user_id, 0);
    assert_eq!(*notice, mb::play(card, 3).msg);
    assert_eq!(msgs[1], game_provider::msg_builder::close_game_args(0, 4));
    assert!(!sm.state.roomid_to_game_state.contains_key(&4));
    assert_eq!(sm.transition_play(Play { card, next_color: 3 }), Err(EngineFault::NotFound));
}

#[test]
fn a_player_without_cards_cannot_play() {
    let mut sm = engine(12);
    sm.state.roomid_to_game_state.get_mut(&4).unwrap().userid_to_player_state.insert(
        20,
        PlayerState { handcards_num: 0 },
    );
    let card = Card { color: 0, text: 0 };
    assert_eq!(
        sm.transition_play(Play { card, next_color: 0 }),
        Err(EngineFault::InvariantViolation)
    );
    assert!(room(&sm).deck.discard_pile.is_empty());
    sm.state.cur_userid = 99;
    assert_eq!(sm.transition_play(Play { card, next_color: 0 }), Err(EngineFault::NotFound));
}

#[test]
fn operations_are_routed_by_their_kind() {
    let mut sm = engine(30);
    let msg = UserOperationArgs {
        room_id: 4,
        user_id: 30,
        custom: Some(util::pack(
            UserOperation { operation: Operation::Draw(Draw { number: 1 }) },
            String::new(),
        )),
    };
    let msgs = sm.transition_user_operation_args(msg).unwrap();
    assert_eq!((sm.state.cur_roomid, sm.state.cur_userid), (4, 30));
    assert_eq!(msgs.len(), 2);
    assert_eq!(room(&sm).userid_to_player_state.get(&30).unwrap().handcards_num, 8);
    let msgs = sm
        .transition_user_operation(UserOperation { operation: Operation::Skip(Skip {}) })
        .unwrap();
    assert_eq!(msgs.len(), 1);
    let card = Card { color: 1, text: 1 };
    let msgs = sm
        .transition_user_operation(UserOperation {
            operation: Operation::Play(Play { card, next_color: 1 }),
        })
        .unwrap();
    assert_eq!(msgs.len(), 1);
    assert_eq!(room(&sm).userid_to_player_state.get(&30).unwrap().handcards_num, 7);
    let bare: UserOperationArgs<UserOperation> =
        UserOperationArgs { room_id: 4, user_id: 10, custom: None };
    assert_eq!(
        sm.transition_user_operation_args(bare),
        Err(Failure::Fault(EngineFault::IllegalOperation))
    );
}

#[test]
fn a_room_of_cards_starts_from_a_fresh_deck() {
    let mut rng = StdRng::seed_from_u64(77);
    let game = GameState::new(vec![3, 1, 3], StartGameSettings { round_time: 20 }, &mut rng);
    assert_eq!(game.userids, vec![3, 1]);
    assert_eq!(game.player_num, 3);
    assert_eq!(game.deck.pile.len(), 108);
    assert_eq!(game.game_settings.round_time, 20);
    assert_eq!(PlayerState::new().handcards_num, 7);
    let state = GlobalState::new();
    assert!(state.roomid_to_game_state.is_empty());
    assert_eq!((state.cur_roomid, state.cur_userid), (-1, -1));
}

#[test]
fn the_first_card_that_is_not_black_lies_face_up() {
    let mut moved = 0;
    for seed in 0..300 {
        let mut rng = StdRng::seed_from_u64(seed);
        let mut game = GameState::new(vec![1, 2, 3], StartGameSettings { round_time: 15 }, &mut rng);
        let pile: Vec<Card> = game.deck.pile.iter().cloned().collect();
        let opening = game.game_start(&mut rng).unwrap();
        assert_eq!(opening.hands.len(), 3);
        for (seat, (user, hand)) in opening.hands.iter().enumerate() {
            assert_eq!(*user, seat as u32 + 1);
            for round in 0..7 {
                assert_eq!(hand[round], pile[round * 3 + seat]);
            }
        }
        let turned = pile[21..].iter().position(|card| card.color != 4).unwrap();
        moved += turned;
        let card = pile[21 + turned];
        let text = if card.text == 12 || card.text == 14 { 15 } else { card.text };
        assert_eq!(opening.flipped_card, Card { color: card.color, text });
        let mut left: Vec<Card> = pile[21 + turned + 1..].to_vec();
        left.extend_from_slice(&pile[21..21 + turned]);
        assert_eq!(game.deck.pile.iter().cloned().collect::<Vec<Card>>(), left);
        assert!(game.deck.discard_pile.is_empty());
        assert!(opening.first_player < 3);
    }
    assert!(moved > 0);
}

#[test]
fn a_game_of_up_to_fourteen_players_always_opens() {
    for seed in 0..50 {
        for players in [1u32, 7, 14] {
            let mut sm = UnoStateMachine::with_seed(seed);
            let msgs = sm
                .transition_start_game_args(game_provider::msg_builder::start_game_args(
                    1,
                    (1..=players).collect(),
                    StartGameSettings { round_time: 15 },
                    String::new(),
                ))
                .unwrap();
            assert_eq!(msgs.len(), players as usize);
            let game = sm.state.roomid_to_game_state.get(&1).unwrap();
            assert_eq!(game.deck.pile.len(), 108 - 7 * players as usize - 1);
        }
    }
}

#[test]
fn a_pile_of_black_cards_opens_no_game() {
    let black = Card { color: 4, text: 13 };
    let mut rng = StdRng::seed_from_u64(1);
    let mut game = GameState::new(vec![1], StartGameSettings { round_time: 15 }, &mut rng);
    game.deck.pile = (0..10).map(|_| black).collect();
    assert_eq!(game.game_start(&mut rng).err(), Some(EngineFault::InvariantViolation));
    game.deck.pile = (0..7).map(|_| black).collect();
    game.deck.pile.push_back(Card { color: 2, text: 12 });
    let opening = game.game_start(&mut rng).unwrap();
    assert_eq!(opening.flipped_card, Card { color: 2, text: 15 });
    assert!(game.deck.pile.is_empty());
    assert_eq!(game.game_start(&mut rng).err(), Some(EngineFault::InvariantViolation));
}
