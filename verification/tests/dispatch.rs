use game_provider::fault::{EngineFault, Failure};
use game_provider::game_manager::GameManager;
use game_provider::msg_builder::{close_game_args, notify_msg_args, start_game_args};
use game_provider::network_interface::{Mailbox, NetworkInterface};
use game_provider::protocol::{
    Any, CloseGameArgs, ErrorNumber, GameSetting, Msg, NotifyMsgArgs, ProviderMsg,
    QueryStateArgs, RegisterArgs, RegisterRet, StartGameArgs, UserOperationArgs,
};
use game_provider::splendor::messages::{
    NotifyMsg, Operation, StartGameSettings, UserOperation,
};
use game_provider::splendor::msg_builder as mb;
use game_provider::splendor::msg_builder::SplendorMsg;
use game_provider::splendor::state_machine::SplendorStateMachine;
use game_provider::state_machine::StateMachine;
use game_provider::util::{pack, unpack};

fn inbound(msg: Msg<StartGameSettings, UserOperation, NotifyMsg>) -> SplendorMsg {
    ProviderMsg { sequence_id: 1, msg: Some(msg) }
}

fn start(room_id: i32, users: Vec<u32>) -> SplendorMsg {
    inbound(Msg::StartGameArgs(mb::start_game_args(
        room_id,
        users,
        StartGameSettings { round_time: 15 },
    )))
}

fn operation(room_id: i32, user_id: u32, operation: Operation) -> SplendorMsg {
    inbound(Msg::UserOperationArgs(UserOperationArgs {
        room_id,
        user_id,
        custom: Some(pack(
            UserOperation { operation },
            String::from("type.googleapis.com/Splendor.UserOperation"),
        )),
    }))
}

#[test]
fn a_payload_is_packed_under_its_type_name() {
    let any = pack(7u32, String::from("type.googleapis.com/Seven"));
    assert_eq!(any, Any { type_url: String::from("type.googleapis.com/Seven"), value: 7u32 });
    assert_eq!(unpack(any), 7u32);
}

#[test]
fn a_notification_carries_its_address() {
    let msg: ProviderMsg<u8, u8, u32> =
        notify_msg_args(5, ErrorNumber::Failed, 2, -9, 77u32, String::from("url"));
    assert_eq!(
        msg,
        ProviderMsg {
            sequence_id: 5,
            msg: Some(Msg::NotifyMsgArgs(NotifyMsgArgs {
                err: 1,
                room_id: 2,
                user_id: -9,
                custom: Some(Any { type_url: String::from("url"), value: 77u32 }),
            })),
        }
    );
    let ok: ProviderMsg<u8, u8, u32> =
        notify_msg_args(0, ErrorNumber::Success, 2, 0, 1u32, String::new());
    match ok.msg.unwrap() {
        Msg::NotifyMsgArgs(args) => assert_eq!(args.err, 0),
        _ => panic!("not a notification"),
    }
    assert_eq!(ErrorNumber::Success.code(), 0);
    assert_eq!(ErrorNumber::from_code(0), ErrorNumber::Success);
    assert_eq!(ErrorNumber::from_code(4), ErrorNumber::Failed);
}

#[test]
fn a_closing_notice_names_the_room() {
    let msg: ProviderMsg<u8, u8, u8> = close_game_args(3, 12);
    assert_eq!(
        msg,
        ProviderMsg { sequence_id: 3, msg: Some(Msg::CloseGameArgs(CloseGameArgs { room_id: 12 })) }
    );
}

#[test]
fn a_start_request_carries_its_settings() {
    let args = start_game_args(4, vec![8, 9], 15u8, String::from("settings"));
    assert_eq!(
        args,
        StartGameArgs {
            room_id: 4,
            user_id: vec![8, 9],
            custom: Some(Any { type_url: String::from("settings"), value: 15u8 }),
        }
    );
    let splendor = mb::start_game_args(1, vec![1, 2], mb::game_settings(30));
    assert_eq!(splendor.custom.as_ref().unwrap().value, StartGameSettings { round_time: 30 });
    assert_eq!(
        splendor.custom.unwrap().type_url,
        "type.googleapis.com/Splendor.StartGameSettings"
    );
    assert_eq!(mb::take(vec![1, 2]).resources, vec![1, 2]);
    assert_eq!(mb::purchase(-1, 2).development_level, -1);
    assert_eq!(mb::purchase(-1, 2).index, 2);
    assert_eq!(mb::reserve(2, -1).development_level, 2);
    assert_eq!(mb::reserve(2, -1).index, -1);
}

#[test]
fn messages_are_routed_by_their_kind() {
    let mut sm = SplendorStateMachine::with_seed(1);
    assert_eq!(sm.transition(inbound(Msg::RegisterRet(RegisterRet { err: 0 }))), Ok(vec![]));
    assert_eq!(
        sm.transition(inbound(Msg::RegisterRet(RegisterRet { err: 1 }))),
        Err(Failure::RegistrationRefused(1))
    );
    let opened = sm.transition(start(1, vec![1, 2])).unwrap();
    assert_eq!(opened.len(), 1);
    assert_eq!(
        sm.transition(inbound(Msg::QueryStateArgs(QueryStateArgs { room_id: 1, user_id: 1 }))),
        Ok(vec![])
    );
    let told = sm.transition(operation(1, 2, Operation::Take(mb::take(vec![3])))).unwrap();
    assert_eq!(told.len(), 2);
    assert_eq!(
        sm.transition(operation(2, 2, Operation::Take(mb::take(vec![3])))),
        Err(Failure::Fault(EngineFault::NotFound))
    );
    assert_eq!(sm.transition(inbound(Msg::CloseGameArgs(CloseGameArgs { room_id: 1 }))), Ok(vec![]));
    let register = RegisterArgs {
        id: String::from("id-splendor"),
        game_name: String::from("Splendor"),
        game_setting: Some(GameSetting { max_users: 4, min_users: 2 }),
    };
    assert_eq!(sm.transition(inbound(Msg::RegisterArgs(register))), Ok(vec![]));
    assert_eq!(
        sm.transition(ProviderMsg { sequence_id: 0, msg: None }),
        Err(Failure::Fault(EngineFault::IllegalOperation))
    );
    assert_eq!(sm.state.roomid_to_game_state.len(), 1);
}

#[test]
fn answers_are_sent_in_their_order() {
    let mailbox: Mailbox<StartGameSettings, UserOperation, NotifyMsg> = Mailbox::new();
    let mut manager = GameManager::new(mailbox, SplendorStateMachine::with_seed(2));
    assert_eq!(manager.handle_message(start(1, vec![5, 6, 7])), Ok(()));
    assert_eq!(manager.network_interface.outbox.len(), 1);
    let request = Operation::Reserve(mb::reserve(0, -1));
    assert_eq!(manager.handle_message(operation(1, 6, request)), Ok(()));
    let sent = &manager.network_interface.outbox;
    assert_eq!(sent.len(), 4);
    let targets: Vec<i32> = sent
        .iter()
        .map(|msg| match msg.msg.as_ref().unwrap() {
            Msg::NotifyMsgArgs(args) => args.user_id,
            _ => panic!("not a notification"),
        })
        .collect();
    assert_eq!(targets, vec![0, 6, 0, -6]);

    let refused = operation(1, 6, Operation::Purchase(mb::purchase(0, 9)));
    assert_eq!(manager.handle_message(refused), Err(Failure::Fault(EngineFault::NotFound)));
    assert_eq!(manager.network_interface.outbox.len(), 4);
}

#[test]
fn a_mailbox_hands_messages_on_in_their_order() {
    let mut mailbox: Mailbox<u8, u8, u8> = Mailbox::new();
    assert!(!mailbox.is_connected());
    mailbox.connect_with_register_args(RegisterArgs {
        id: String::from("id"),
        game_name: String::from("game"),
        game_setting: None,
    });
    assert!(mailbox.is_connected());
    assert_eq!(mailbox.recv(), ProviderMsg { sequence_id: 0, msg: None });
    mailbox.deliver(close_game_args(1, 1));
    mailbox.deliver(close_game_args(2, 2));
    assert_eq!(mailbox.recv(), close_game_args(1, 1));
    mailbox.send(close_game_args(3, 3));
    mailbox.send(close_game_args(4, 4));
    assert_eq!(mailbox.recv(), close_game_args(2, 2));
    assert_eq!(mailbox.outbox, vec![close_game_args(3, 3), close_game_args(4, 4)]);
    mailbox.stop();
    assert!(!mailbox.is_connected());
}
