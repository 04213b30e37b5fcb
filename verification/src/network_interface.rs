//! The channel between an engine and the service.

use crate::protocol::{ProviderMsg, RegisterArgs};
use std::collections::VecDeque;
use vstd::prelude::*;

verus! {

/// A two-way channel to the service. Messages are handed over with `send`
/// in the order in which they are to leave.
pub trait NetworkInterface<S, U, N> {
    /// The messages handed over so far, the first one first.
    spec fn sent(&self) -> Seq<ProviderMsg<S, U, N>>;

    /// Opens the channel and registers the game.
    fn connect_with_register_args(&mut self, msg: RegisterArgs)
        ensures
            final(self).sent() == old(self).sent(),
    ;

    /// Whether the channel is open.
    fn is_connected(&self) -> bool;

    /// The next message of the service.
    fn recv(&mut self) -> (msg: ProviderMsg<S, U, N>)
        ensures
            final(self).sent() == old(self).sent(),
    ;

    /// Hands a message over for sending.
    fn send(&mut self, msg: ProviderMsg<S, U, N>)
        ensures
            final(self).sent() == old(self).sent().push(msg),
    ;

    /// Closes the channel.
    fn stop(&mut self)
        ensures
            final(self).sent() == old(self).sent(),
    ;
}

/// A channel in memory: a queue of messages to receive, filled by whoever
/// feeds the engine, and the messages sent, for whoever delivers them.
pub struct Mailbox<S, U, N> {
    pub inbox: VecDeque<ProviderMsg<S, U, N>>,
    pub outbox: Vec<ProviderMsg<S, U, N>>,
    pub connected: bool,
}

impl<S, U, N> Mailbox<S, U, N> {
    /// A closed channel with nothing to receive and nothing sent.
    pub fn new() -> (mailbox: Self)
        ensures
            mailbox.inbox@.len() == 0,
            mailbox.outbox@.len() == 0,
            !mailbox.connected,
    {
        Mailbox { inbox: VecDeque::new(), outbox: Vec::new(), connected: false }
    }

    /// Puts a message where `recv` will find it, behind those already there.
    pub fn deliver(&mut self, msg: ProviderMsg<S, U, N>)
        ensures
            final(self).inbox@ == old(self).inbox@.push(msg),
            final(self).outbox == old(self).outbox,
            final(self).connected == old(self).connected,
    {
        self.inbox.push_back(msg);
    }
}

impl<S, U, N> NetworkInterface<S, U, N> for Mailbox<S, U, N> {
    open spec fn sent(&self) -> Seq<ProviderMsg<S, U, N>> {
        self.outbox@
    }

    fn connect_with_register_args(&mut self, msg: RegisterArgs)
        ensures
            final(self).connected,
            final(self).inbox == old(self).inbox,
    {
        self.connected = true;
    }

    fn is_connected(&self) -> (connected: bool)
        ensures
            connected == self.connected,
    {
        self.connected
    }

    /// The message at the head of the queue; a message without a payload
    /// where the queue is empty.
    fn recv(&mut self) -> (msg: ProviderMsg<S, U, N>)
        ensures
            old(self).inbox@.len() > 0 ==> msg == old(self).inbox@[0] && final(self).inbox@
                == old(self).inbox@.subrange(1, old(self).inbox@.len() as int),
            old(self).inbox@.len() == 0 ==> msg.msg is None && msg.sequence_id == 0 && final(self).inbox@ == old(self).inbox@,
            final(self).connected == old(self).connected,
    {
        match self.inbox.pop_front() {
            Some(msg) => msg,
            None => ProviderMsg { sequence_id: 0, msg: None },
        }
    }

    fn send(&mut self, msg: ProviderMsg<S, U, N>)
        ensures
            final(self).inbox == old(self).inbox,
            final(self).connected == old(self).connected,
    {
        self.outbox.push(msg);
    }

    fn stop(&mut self)
        ensures
            !final(self).connected,
            final(self).inbox == old(self).inbox,
    {
        self.connected = false;
    }
}

} // verus!
