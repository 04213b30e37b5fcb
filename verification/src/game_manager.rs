//! The host: it hands each message of the service to the engine and the
//! engine's answers to the channel.

use crate::fault::Failure;
use crate::network_interface::NetworkInterface;
use crate::protocol::ProviderMsg;
use crate::state_machine::{routed, Outcome, StateMachine};
use vstd::prelude::*;

verus! {

/// An engine together with its channel to the service.
pub struct GameManager<
    I: NetworkInterface<M::Settings, M::Operation, M::Notice>,
    M: StateMachine,
> {
    pub network_interface: I,
    pub state_machine: M,
}

impl<
    I: NetworkInterface<M::Settings, M::Operation, M::Notice>,
    M: StateMachine,
> GameManager<I, M> {
    pub fn new(network_interface: I, state_machine: M) -> (manager: Self)
        ensures
            manager.network_interface == network_interface,
            manager.state_machine == state_machine,
    {
        GameManager { network_interface, state_machine }
    }

    /// Lets the engine process one message and hands its answers to the
    /// channel, in their order, before anything else is processed. Where the
    /// engine refuses the message, nothing is sent.
    pub fn handle_message(
        &mut self,
        msg: ProviderMsg<M::Settings, M::Operation, M::Notice>,
    ) -> (done: Result<(), Failure>)
        requires
            old(self).state_machine.inv(),
        ensures
            final(self).state_machine.inv(),
            exists|out: Outcome<M::Settings, M::Operation, M::Notice>|
                {
                    &&& #[trigger] routed(
                        old(self).state_machine,
                        msg,
                        final(self).state_machine,
                        out,
                    )
                    &&& match out {
                        Ok(answers) => done is Ok && final(self).network_interface.sent() == old(self).network_interface.sent() + answers@,
                        Err(failure) => done == Err::<(), Failure>(failure) && final(self).network_interface.sent() == old(self).network_interface.sent(),
                    }
                },
    {
        let out = self.state_machine.transition(msg);
        let ghost engine = self.state_machine;
        let ghost outcome = out;
        assert(routed(old(self).state_machine, msg, engine, outcome));
        match out {
            Err(failure) => Err(failure),
            Ok(answers) => {
                let ghost all = answers@;
                let ghost before = self.network_interface.sent();
                let mut rest = answers;
                while rest.len() > 0
                    invariant
                        self.state_machine == engine,
                        rest@.len() <= all.len(),
                        self.network_interface.sent() + rest@ == before + all,
                    decreases rest.len(),
                {
                    let ghost waiting = rest@;
                    let ghost sent = self.network_interface.sent();
                    let next = rest.remove(0);
                    self.network_interface.send(next);
                    assert(self.network_interface.sent() + rest@ =~= sent + waiting);
                }
                assert(self.network_interface.sent() =~= before + all);
                Ok(())
            },
        }
    }
}

} // verus!
