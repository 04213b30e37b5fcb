//! The messages that a game engine exchanges with the matchmaking service.
//!
//! A message carries a payload of the game in its `custom` slot. The types
//! here are generic in these payloads: `S` for the settings of a start-game
//! request, `U` for a user's operation, `N` for a notification.

use vstd::prelude::*;

verus! {

/// The error number of a message. Every number but that of `Success` is a failure.
#[derive(Clone, Copy, Debug, PartialEq, Eq, Structural)]
pub enum ErrorNumber {
    Success,
    Failed,
}

impl ErrorNumber {
    /// The number that stands for this value in a message.
    pub open spec fn spec_code(self) -> i32 {
        match self {
            ErrorNumber::Success => 0,
            ErrorNumber::Failed => 1,
        }
    }

    #[verifier::when_used_as_spec(spec_code)]
    pub fn code(self) -> (code: i32)
        ensures
            code == self.spec_code(),
    {
        match self {
            ErrorNumber::Success => 0,
            ErrorNumber::Failed => 1,
        }
    }

    /// What a number in a message says.
    pub fn from_code(code: i32) -> (err: ErrorNumber)
        ensures
            err == if code == 0 {
                ErrorNumber::Success
            } else {
                ErrorNumber::Failed
            },
    {
        if code == 0 {
            ErrorNumber::Success
        } else {
            ErrorNumber::Failed
        }
    }
}

/// A payload together with the name of its type.
#[derive(Debug, PartialEq, Eq)]
pub struct Any<T> {
    pub type_url: String,
    pub value: T,
}

/// The model of a named payload.
pub struct AnyView<T> {
    pub type_url: Seq<char>,
    pub value: T,
}

impl<T: View> View for Any<T> {
    type V = AnyView<T::V>;

    open spec fn view(&self) -> AnyView<T::V> {
        AnyView { type_url: self.type_url@, value: self.value@ }
    }
}

/// The model of an optional named payload.
pub open spec fn custom_view<T: View>(custom: Option<Any<T>>) -> Option<AnyView<T::V>> {
    match custom {
        Some(any) => Some(any@),
        None => None,
    }
}

/// How many users a game takes.
#[derive(Clone, Copy, Debug, PartialEq, Eq, Structural)]
pub struct GameSetting {
    pub max_users: i32,
    pub min_users: i32,
}

/// The request by which an engine registers its game with the service.
#[derive(Debug, PartialEq, Eq)]
pub struct RegisterArgs {
    pub id: String,
    pub game_name: String,
    pub game_setting: Option<GameSetting>,
}

/// The model of a registration request.
pub struct RegisterArgsView {
    pub id: Seq<char>,
    pub game_name: Seq<char>,
    pub game_setting: Option<GameSetting>,
}

impl View for RegisterArgs {
    type V = RegisterArgsView;

    open spec fn view(&self) -> RegisterArgsView {
        RegisterArgsView {
            id: self.id@,
            game_name: self.game_name@,
            game_setting: self.game_setting,
        }
    }
}

/// The service's answer to a registration.
#[derive(Clone, Copy, Debug, PartialEq, Eq, Structural)]
pub struct RegisterRet {
    pub err: i32,
}

/// The request to open a room for the given users.
#[derive(Debug, PartialEq, Eq)]
pub struct StartGameArgs<S> {
    pub room_id: i32,
    pub user_id: Vec<u32>,
    pub custom: Option<Any<S>>,
}

/// The model of a start-game request.
pub struct StartGameArgsView<S> {
    pub room_id: i32,
    pub user_id: Seq<u32>,
    pub custom: Option<AnyView<S>>,
}

impl<S: View> View for StartGameArgs<S> {
    type V = StartGameArgsView<S::V>;

    open spec fn view(&self) -> StartGameArgsView<S::V> {
        StartGameArgsView {
            room_id: self.room_id,
            user_id: self.user_id@,
            custom: custom_view(self.custom),
        }
    }
}

/// The request of a user to learn the state of a room.
#[derive(Clone, Copy, Debug, PartialEq, Eq, Structural)]
pub struct QueryStateArgs {
    pub room_id: i32,
    pub user_id: u32,
}

/// The operation of a user in a room.
#[derive(Debug, PartialEq, Eq)]
pub struct UserOperationArgs<U> {
    pub room_id: i32,
    pub user_id: u32,
    pub custom: Option<Any<U>>,
}

/// The model of a user-operation message.
pub struct UserOperationArgsView<U> {
    pub room_id: i32,
    pub user_id: u32,
    pub custom: Option<AnyView<U>>,
}

impl<U: View> View for UserOperationArgs<U> {
    type V = UserOperationArgsView<U::V>;

    open spec fn view(&self) -> UserOperationArgsView<U::V> {
        UserOperationArgsView {
            room_id: self.room_id,
            user_id: self.user_id,
            custom: custom_view(self.custom),
        }
    }
}

/// A notification for the users of a room. `user_id` says who gets it: a
/// positive id that user alone, zero every user of the room, a negative
/// value every user of the room but the one whose id it negates.
#[derive(Debug, PartialEq, Eq)]
pub struct NotifyMsgArgs<N> {
    pub err: i32,
    pub room_id: i32,
    pub user_id: i32,
    pub custom: Option<Any<N>>,
}

/// The model of a notification.
pub struct NotifyMsgArgsView<N> {
    pub err: i32,
    pub room_id: i32,
    pub user_id: i32,
    pub custom: Option<AnyView<N>>,
}

impl<N: View> View for NotifyMsgArgs<N> {
    type V = NotifyMsgArgsView<N::V>;

    open spec fn view(&self) -> NotifyMsgArgsView<N::V> {
        NotifyMsgArgsView {
            err: self.err,
            room_id: self.room_id,
            user_id: self.user_id,
            custom: custom_view(self.custom),
        }
    }
}

/// The notice that the game of a room is over.
#[derive(Clone, Copy, Debug, PartialEq, Eq, Structural)]
pub struct CloseGameArgs {
    pub room_id: i32,
}

/// What a message is: one of these.
#[derive(Debug, PartialEq, Eq)]
pub enum Msg<S, U, N> {
    RegisterArgs(RegisterArgs),
    RegisterRet(RegisterRet),
    StartGameArgs(StartGameArgs<S>),
    QueryStateArgs(QueryStateArgs),
    UserOperationArgs(UserOperationArgs<U>),
    NotifyMsgArgs(NotifyMsgArgs<N>),
    CloseGameArgs(CloseGameArgs),
}

/// The model of what a message is.
pub enum MsgView<S, U, N> {
    RegisterArgs(RegisterArgsView),
    RegisterRet(RegisterRet),
    StartGameArgs(StartGameArgsView<S>),
    QueryStateArgs(QueryStateArgs),
    UserOperationArgs(UserOperationArgsView<U>),
    NotifyMsgArgs(NotifyMsgArgsView<N>),
    CloseGameArgs(CloseGameArgs),
}

impl<S: View, U: View, N: View> View for Msg<S, U, N> {
    type V = MsgView<S::V, U::V, N::V>;

    open spec fn view(&self) -> MsgView<S::V, U::V, N::V> {
        match self {
            Msg::RegisterArgs(msg) => MsgView::RegisterArgs(msg@),
            Msg::RegisterRet(msg) => MsgView::RegisterRet(*msg),
            Msg::StartGameArgs(msg) => MsgView::StartGameArgs(msg@),
            Msg::QueryStateArgs(msg) => MsgView::QueryStateArgs(*msg),
            Msg::UserOperationArgs(msg) => MsgView::UserOperationArgs(msg@),
            Msg::NotifyMsgArgs(msg) => MsgView::NotifyMsgArgs(msg@),
            Msg::CloseGameArgs(msg) => MsgView::CloseGameArgs(*msg),
        }
    }
}

/// A message between an engine and the service.
#[derive(Debug, PartialEq, Eq)]
pub struct ProviderMsg<S, U, N> {
    pub sequence_id: i32,
    pub msg: Option<Msg<S, U, N>>,
}

/// The model of a message.
pub struct ProviderMsgView<S, U, N> {
    pub sequence_id: i32,
    pub msg: Option<MsgView<S, U, N>>,
}

impl<S: View, U: View, N: View> View for ProviderMsg<S, U, N> {
    type V = ProviderMsgView<S::V, U::V, N::V>;

    open spec fn view(&self) -> ProviderMsgView<S::V, U::V, N::V> {
        ProviderMsgView {
            sequence_id: self.sequence_id,
            msg: match self.msg {
                Some(msg) => Some(msg@),
                None => None,
            },
        }
    }
}

} // verus!
