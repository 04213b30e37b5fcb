//! The messages of the game.

use crate::msg_builder as pmb;
use crate::msg_builder::notification;
use crate::protocol::{ErrorNumber, ProviderMsg, ProviderMsgView};
use crate::uno::messages::{
    Card, Draw, DrawRsp, GameStart, Notice, NoticeView, NotifyMsg, Operation, Play, Skip,
    StartGameSettings, UserOperation,
};
use vstd::prelude::*;

verus! {

/// A message of the game.
pub type UnoMsg = ProviderMsg<StartGameSettings, UserOperation, NotifyMsg>;

/// The model of a message of the game.
pub type UnoMsgView = ProviderMsgView<StartGameSettings, Operation, NoticeView>;

/// The name of the type of the game's notifications.
pub open spec fn notify_type_url() -> Seq<char> {
    "type.googleapis.com/Uno.NotifyMsg"@
}

/// The model of the game's notification of `notice` for `user_id` in `room_id`.
pub open spec fn notice_for(room_id: i32, user_id: i32, notice: NoticeView) -> UnoMsgView {
    notification(0, ErrorNumber::Success, room_id, user_id, notice, notify_type_url())
}

/// The notice that opens a game, for the player with this hand.
pub fn game_start(init_handcards: Vec<Card>, flipped_card: Card, first_player: u32) -> (msg:
    NotifyMsg)
    ensures
        msg@ == (NoticeView::GameStart {
            init_handcards: init_handcards@,
            flipped_card,
            first_player,
        }),
{
    NotifyMsg { msg: Notice::GameStart(GameStart { init_handcards, flipped_card, first_player }) }
}

/// The notice that a player draws `number` cards.
pub fn draw(number: i32) -> (msg: NotifyMsg)
    ensures
        msg@ == NoticeView::Draw(Draw { number }),
{
    NotifyMsg { msg: Notice::Draw(Draw { number }) }
}

/// The notice of the cards that a player has drawn.
pub fn draw_rsp(cards: Vec<Card>) -> (msg: NotifyMsg)
    ensures
        msg@ == NoticeView::DrawRsp(cards@),
{
    NotifyMsg { msg: Notice::DrawRsp(DrawRsp { cards }) }
}

/// The notice that a player passes.
pub fn skip() -> (msg: NotifyMsg)
    ensures
        msg@ == NoticeView::Skip(Skip {  }),
{
    NotifyMsg { msg: Notice::Skip(Skip {  }) }
}

/// The notice that a player plays a card and names a colour.
pub fn play(card: Card, next_color: i32) -> (msg: NotifyMsg)
    ensures
        msg@ == NoticeView::Play(Play { card, next_color }),
{
    NotifyMsg { msg: Notice::Play(Play { card, next_color }) }
}

/// The game's notification of `custom` for `user_id` in `room_id`: a
/// positive `user_id` is that user alone, zero every user of the room, a
/// negative one every user but the one whose id it negates.
pub fn notify_msg_args(room_id: i32, user_id: i32, custom: NotifyMsg) -> (msg: UnoMsg)
    ensures
        msg@ == notice_for(room_id, user_id, custom@),
{
    pmb::notify_msg_args(
        0,
        ErrorNumber::Success,
        room_id,
        user_id,
        custom,
        "type.googleapis.com/Uno.NotifyMsg".to_owned(),
    )
}

} // verus!
