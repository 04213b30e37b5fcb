//! The messages of the game.

use crate::msg_builder as pmb;
use crate::msg_builder::notification;
use crate::protocol::{
    AnyView, ErrorNumber, ProviderMsg, ProviderMsgView, StartGameArgs, StartGameArgsView,
};
use crate::splendor::messages::{
    Development, GameStart, GameState, Notice, NoticeView, NotifyMsg, OperationView, Purchase,
    Reserve, ReserveFromDeckRsp, StartGameSettings, Take, UserOperation,
};
use vstd::prelude::*;

verus! {

/// A message of the game.
pub type SplendorMsg = ProviderMsg<StartGameSettings, UserOperation, NotifyMsg>;

/// The model of a message of the game.
pub type SplendorMsgView = ProviderMsgView<StartGameSettings, OperationView, NoticeView>;

/// The name of the type of the game's notifications.
pub open spec fn notify_type_url() -> Seq<char> {
    "type.googleapis.com/Splendor.NotifyMsg"@
}

/// The name of the type of the game's settings.
pub open spec fn settings_type_url() -> Seq<char> {
    "type.googleapis.com/Splendor.StartGameSettings"@
}

/// The model of the game's notification of `notice` for `user_id` in `room_id`.
pub open spec fn notice_for(room_id: i32, user_id: i32, notice: NoticeView) -> SplendorMsgView {
    notification(0, ErrorNumber::Success, room_id, user_id, notice, notify_type_url())
}

/// The notice that opens a game.
pub fn game_start(start: GameStart) -> (msg: NotifyMsg)
    ensures
        msg@ == NoticeView::GameStart(start@),
{
    NotifyMsg { msg: Notice::GameStart(start) }
}

/// The notice of the public state of a room.
pub fn game_state(state: GameState) -> (msg: NotifyMsg)
    ensures
        msg@ == NoticeView::State(state@),
{
    NotifyMsg { msg: Notice::State(state) }
}

/// The notice of what a user has just done.
pub fn user_op(operation: UserOperation) -> (msg: NotifyMsg)
    ensures
        msg@ == NoticeView::LastUserOperation(operation@),
{
    NotifyMsg { msg: Notice::LastUserOperation(operation) }
}

/// The notice of the card that a user has drawn from a deck.
pub fn reserve_rsp(dev_card: Development) -> (msg: NotifyMsg)
    ensures
        msg@ == NoticeView::ReserveRsp(dev_card@),
{
    NotifyMsg { msg: Notice::ReserveRsp(ReserveFromDeckRsp { card: dev_card }) }
}

/// The game's notification of `custom` for `user_id` in `room_id`: a
/// positive `user_id` is that user alone, zero every user of the room, a
/// negative one every user but the one whose id it negates.
pub fn notify_msg_args(room_id: i32, user_id: i32, custom: NotifyMsg) -> (msg: SplendorMsg)
    ensures
        msg@ == notice_for(room_id, user_id, custom@),
{
    pmb::notify_msg_args(
        0,
        ErrorNumber::Success,
        room_id,
        user_id,
        custom,
        "type.googleapis.com/Splendor.NotifyMsg".to_owned(),
    )
}

/// A request to open a room of the game.
pub fn start_game_args(room_id: i32, user_id: Vec<u32>, custom: StartGameSettings) -> (args:
    StartGameArgs<StartGameSettings>)
    ensures
        args@ == (StartGameArgsView {
            room_id,
            user_id: user_id@,
            custom: Some(AnyView { type_url: settings_type_url(), value: custom }),
        }),
{
    pmb::start_game_args(
        room_id,
        user_id,
        custom,
        "type.googleapis.com/Splendor.StartGameSettings".to_owned(),
    )
}

/// A request for one token of each listed kind.
pub fn take(resources: Vec<i32>) -> (request: Take)
    ensures
        request.resources == resources,
{
    Take { resources }
}

/// A request to buy a card.
pub fn purchase(development_level: i32, index: i32) -> (request: Purchase)
    ensures
        request == (Purchase { development_level, index }),
{
    Purchase { development_level, index }
}

/// A request to reserve a card.
pub fn reserve(development_level: i32, index: i32) -> (request: Reserve)
    ensures
        request == (Reserve { development_level, index }),
{
    Reserve { development_level, index }
}

/// The settings of a game.
pub fn game_settings(round_time: i32) -> (settings: StartGameSettings)
    ensures
        settings == (StartGameSettings { round_time }),
{
    StartGameSettings { round_time }
}

} // verus!
