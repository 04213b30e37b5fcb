//! The contract between the host and a game engine.

use crate::fault::{EngineFault, Failure};
use crate::protocol::{
    Msg, ProviderMsg, QueryStateArgs, RegisterRet, StartGameArgs, UserOperationArgs,
};
use vstd::prelude::*;

verus! {

/// What an engine answers to a message: the messages to send, or why the
/// message was not processed.
pub type Outcome<S, U, N> = Result<Vec<ProviderMsg<S, U, N>>, Failure>;

/// A game engine. It is handed the service's messages one at a time and
/// answers each with the messages to send. The four handlers are the
/// engine's own; `transition` routes a message to the handler of its kind.
pub trait StateMachine: Sized {
    /// The settings that a start-game request carries.
    type Settings: View;

    /// What a user's operation carries.
    type Operation: View;

    /// What a notification carries.
    type Notice: View;

    /// What holds of the engine between two messages.
    spec fn inv(&self) -> bool;

    /// What the handler of registration answers does.
    spec fn register_ret_post(
        pre: Self,
        msg: RegisterRet,
        post: Self,
        out: Outcome<Self::Settings, Self::Operation, Self::Notice>,
    ) -> bool;

    /// What the handler of start-game requests does.
    spec fn start_game_args_post(
        pre: Self,
        msg: StartGameArgs<Self::Settings>,
        post: Self,
        out: Outcome<Self::Settings, Self::Operation, Self::Notice>,
    ) -> bool;

    /// What the handler of state queries does.
    spec fn query_state_args_post(
        pre: Self,
        msg: QueryStateArgs,
        post: Self,
        out: Outcome<Self::Settings, Self::Operation, Self::Notice>,
    ) -> bool;

    /// What the handler of user operations does.
    spec fn user_operation_args_post(
        pre: Self,
        msg: UserOperationArgs<Self::Operation>,
        post: Self,
        out: Outcome<Self::Settings, Self::Operation, Self::Notice>,
    ) -> bool;

    /// Routes a message to the handler of its kind. A message of a kind
    /// that has no handler is answered with nothing; a message without a
    /// payload is refused.
    fn transition(
        &mut self,
        msg: ProviderMsg<Self::Settings, Self::Operation, Self::Notice>,
    ) -> (out: Outcome<Self::Settings, Self::Operation, Self::Notice>)
        requires
            old(self).inv(),
        ensures
            final(self).inv(),
            match msg.msg {
                None => *final(self) == *old(self) && out == Err::<
                    Vec<ProviderMsg<Self::Settings, Self::Operation, Self::Notice>>,
                    Failure,
                >(Failure::Fault(EngineFault::IllegalOperation)),
                Some(Msg::RegisterRet(msg)) => Self::register_ret_post(
                    *old(self),
                    msg,
                    *final(self),
                    out,
                ),
                Some(Msg::StartGameArgs(msg)) => Self::start_game_args_post(
                    *old(self),
                    msg,
                    *final(self),
                    out,
                ),
                Some(Msg::QueryStateArgs(msg)) => Self::query_state_args_post(
                    *old(self),
                    msg,
                    *final(self),
                    out,
                ),
                Some(Msg::UserOperationArgs(msg)) => Self::user_operation_args_post(
                    *old(self),
                    msg,
                    *final(self),
                    out,
                ),
                Some(_) => *final(self) == *old(self) && out is Ok && out->Ok_0@.len() == 0,
            },
    {
        match msg.msg {
            None => Err(Failure::Fault(EngineFault::IllegalOperation)),
            Some(Msg::RegisterRet(msg)) => self.transition_register_ret(msg),
            Some(Msg::StartGameArgs(msg)) => self.transition_start_game_args(msg),
            Some(Msg::QueryStateArgs(msg)) => self.transition_query_state_args(msg),
            Some(Msg::UserOperationArgs(msg)) => self.transition_user_operation_args(msg),
            Some(_) => Ok(Vec::new()),
        }
    }

    /// Takes note of the service's answer to the registration.
    fn transition_register_ret(&mut self, msg: RegisterRet) -> (out: Outcome<
        Self::Settings,
        Self::Operation,
        Self::Notice,
    >)
        requires
            old(self).inv(),
        ensures
            final(self).inv(),
            Self::register_ret_post(*old(self), msg, *final(self), out),
    ;

    /// Opens a room.
    fn transition_start_game_args(&mut self, msg: StartGameArgs<Self::Settings>) -> (out: Outcome<
        Self::Settings,
        Self::Operation,
        Self::Notice,
    >)
        requires
            old(self).inv(),
        ensures
            final(self).inv(),
            Self::start_game_args_post(*old(self), msg, *final(self), out),
    ;

    /// Answers a query for the state of a room.
    fn transition_query_state_args(&mut self, msg: QueryStateArgs) -> (out: Outcome<
        Self::Settings,
        Self::Operation,
        Self::Notice,
    >)
        requires
            old(self).inv(),
        ensures
            final(self).inv(),
            Self::query_state_args_post(*old(self), msg, *final(self), out),
    ;

    /// Carries out the operation of a user.
    fn transition_user_operation_args(
        &mut self,
        msg: UserOperationArgs<Self::Operation>,
    ) -> (out: Outcome<Self::Settings, Self::Operation, Self::Notice>)
        requires
            old(self).inv(),
        ensures
            final(self).inv(),
            Self::user_operation_args_post(*old(self), msg, *final(self), out),
    ;
}

/// What `transition` does to an engine: what the handler of the message's
/// kind does.
pub open spec fn routed<M: StateMachine>(
    pre: M,
    msg: ProviderMsg<M::Settings, M::Operation, M::Notice>,
    post: M,
    out: Outcome<M::Settings, M::Operation, M::Notice>,
) -> bool {
    match msg.msg {
        None => post == pre && out == Err::<
            Vec<ProviderMsg<M::Settings, M::Operation, M::Notice>>,
            Failure,
        >(Failure::Fault(EngineFault::IllegalOperation)),
        Some(Msg::RegisterRet(msg)) => M::register_ret_post(pre, msg, post, out),
        Some(Msg::StartGameArgs(msg)) => M::start_game_args_post(pre, msg, post, out),
        Some(Msg::QueryStateArgs(msg)) => M::query_state_args_post(pre, msg, post, out),
        Some(Msg::UserOperationArgs(msg)) => M::user_operation_args_post(pre, msg, post, out),
        Some(_) => post == pre && out is Ok && out->Ok_0@.len() == 0,
    }
}

} // verus!
