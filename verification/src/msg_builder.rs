//! The messages that an engine sends.

use crate::protocol::{
    AnyView, CloseGameArgs, ErrorNumber, Msg, MsgView, NotifyMsgArgs, NotifyMsgArgsView,
    ProviderMsg, ProviderMsgView, StartGameArgs, StartGameArgsView,
};
use crate::util;
use vstd::prelude::*;

verus! {

/// The model of a notification with the given fields.
pub open spec fn notification<S, U, N>(
    sequence_id: i32,
    err: ErrorNumber,
    room_id: i32,
    user_id: i32,
    custom: N,
    type_url: Seq<char>,
) -> ProviderMsgView<S, U, N> {
    ProviderMsgView {
        sequence_id,
        msg: Some(
            MsgView::NotifyMsgArgs(
                NotifyMsgArgsView {
                    err: err.spec_code(),
                    room_id,
                    user_id,
                    custom: Some(AnyView { type_url, value: custom }),
                },
            ),
        ),
    }
}

/// A notification for the users of a room. `user_id` says who gets it: a
/// positive id that user alone, zero every user of the room, a negative
/// value every user of the room but the one whose id it negates.
pub fn notify_msg_args<S: View, U: View, N: View>(
    sequence_id: i32,
    err: ErrorNumber,
    room_id: i32,
    user_id: i32,
    custom: N,
    type_url: String,
) -> (msg: ProviderMsg<S, U, N>)
    ensures
        msg@ == notification::<S::V, U::V, N::V>(
            sequence_id,
            err,
            room_id,
            user_id,
            custom@,
            type_url@,
        ),
{
    ProviderMsg {
        sequence_id,
        msg: Some(
            Msg::NotifyMsgArgs(
                NotifyMsgArgs {
                    err: err.code(),
                    room_id,
                    user_id,
                    custom: Some(util::pack(custom, type_url)),
                },
            ),
        ),
    }
}

/// The model of the notice that the game of a room is over.
pub open spec fn closing<S, U, N>(sequence_id: i32, room_id: i32) -> ProviderMsgView<S, U, N> {
    ProviderMsgView { sequence_id, msg: Some(MsgView::CloseGameArgs(CloseGameArgs { room_id })) }
}

/// The notice that the game of a room is over.
pub fn close_game_args<S: View, U: View, N: View>(sequence_id: i32, room_id: i32) -> (msg:
    ProviderMsg<S, U, N>)
    ensures
        msg@ == closing::<S::V, U::V, N::V>(sequence_id, room_id),
{
    ProviderMsg { sequence_id, msg: Some(Msg::CloseGameArgs(CloseGameArgs { room_id })) }
}

/// A request to open a room for the given users with the given settings.
pub fn start_game_args<S: View>(
    room_id: i32,
    user_id: Vec<u32>,
    custom: S,
    type_url: String,
) -> (args: StartGameArgs<S>)
    ensures
        args@ == (StartGameArgsView {
            room_id,
            user_id: user_id@,
            custom: Some(AnyView { type_url: type_url@, value: custom@ }),
        }),
{
    StartGameArgs { room_id, user_id, custom: Some(util::pack(custom, type_url)) }
}

} // verus!
