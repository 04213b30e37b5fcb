//! The engine of the game: it opens rooms, carries out the operations of
//! their users and tells the users what has happened.

use crate::fault::{EngineFault, Failure};
use crate::protocol::{QueryStateArgs, RegisterRet, StartGameArgs, UserOperationArgs};
use crate::random::{seeded, seeded_generator, unseeded};
use crate::seqs::views;
use crate::splendor::messages::{
    GameStartView, NoticeView, NotifyMsg, Operation, OperationView, Purchase, Reserve,
    StartGameSettings, Take, UserOperation,
};
use crate::splendor::msg_builder as mb;
use crate::splendor::msg_builder::{notice_for, SplendorMsg, SplendorMsgView};
use crate::splendor::state::{is_new_room, GameState, GlobalState, GlobalView};
use crate::state_machine::{Outcome, StateMachine};
use rand::rngs::StdRng;
use vstd::prelude::*;

verus! {

impl GlobalView {
    /// Why the operation of the context's user on the context's room is
    /// refused, if it is.
    pub open spec fn room_fault(self, operation: OperationView) -> Option<EngineFault> {
        if !self.rooms.contains_key(self.cur_roomid) {
            Some(EngineFault::NotFound)
        } else {
            self.rooms[self.cur_roomid].fault(self.user(), operation)
        }
    }

    /// The rooms after the operation; an operation that is refused leaves
    /// them as they are.
    pub open spec fn after(self, operation: OperationView) -> GlobalView {
        if self.room_fault(operation) is Some {
            self
        } else {
            GlobalView {
                rooms: self.rooms.insert(
                    self.cur_roomid,
                    self.rooms[self.cur_roomid].after(self.user(), operation),
                ),
                ..self
            }
        }
    }

    /// The notice of the public state of the context's room to all its users.
    pub open spec fn state_notice(self) -> SplendorMsgView {
        notice_for(self.cur_roomid, 0, NoticeView::State(self.rooms[self.cur_roomid].public()))
    }

    /// What the users are told of an operation that was carried out: the
    /// new public state of the room, and before it, where the top of a deck
    /// was reserved, the card, to the user alone.
    pub open spec fn answers(self, operation: OperationView) -> Seq<SplendorMsgView> {
        let told = self.after(operation).state_notice();
        match operation {
            OperationView::Reserve(reserve) => if reserve.index < 0 {
                seq![
                    notice_for(
                        self.cur_roomid,
                        self.cur_userid,
                        NoticeView::ReserveRsp(
                            self.rooms[self.cur_roomid].reserve_card(
                                reserve.development_level as int,
                                reserve.index as int,
                            ),
                        ),
                    ),
                    told,
                ]
            } else {
                seq![told]
            },
            _ => seq![told],
        }
    }

    /// Why a user's operation is refused, if it is. A user whose id has no
    /// negative cannot be left out of a notice, so that user can do nothing.
    pub open spec fn operation_fault(self, operation: OperationView) -> Option<EngineFault> {
        if self.cur_userid == i32::MIN {
            Some(EngineFault::IllegalOperation)
        } else {
            self.room_fault(operation)
        }
    }

    /// What the users are told of a user's operation: the answers, and then
    /// the operation itself, to every user but the one who did it.
    pub open spec fn operation_answers(self, operation: OperationView) -> Seq<SplendorMsgView> {
        self.answers(operation).push(
            notice_for(
                self.cur_roomid,
                (-self.cur_userid) as i32,
                NoticeView::LastUserOperation(operation),
            ),
        )
    }
}

/// The engine of the game.
pub struct SplendorStateMachine {
    pub state: GlobalState,
    /// What the rooms are set up from.
    pub rng: StdRng,
}

impl SplendorStateMachine {
    /// An engine without rooms, whose draws nobody can foresee. Where the
    /// system has no random numbers to give, the draws follow from the seed zero.
    pub fn new() -> (engine: SplendorStateMachine)
        ensures
            engine.state@.rooms == Map::<i32, crate::splendor::model::GameView>::empty(),
            engine.state@.cur_roomid == -1,
            engine.state@.cur_userid == -1,
            engine.inv(),
    {
        let rng = match unseeded() {
            Some(rng) => rng,
            None => seeded(0),
        };
        SplendorStateMachine { state: GlobalState::new(), rng }
    }

    /// An engine without rooms, with the generator that `seed` determines.
    pub fn with_seed(seed: u64) -> (engine: SplendorStateMachine)
        ensures
            engine.state@.rooms == Map::<i32, crate::splendor::model::GameView>::empty(),
            engine.state@.cur_roomid == -1,
            engine.state@.cur_userid == -1,
            engine.inv(),
            engine.rng == seeded_generator(seed),
    {
        SplendorStateMachine { state: GlobalState::new(), rng: seeded(seed) }
    }

    /// Carries out the operation of the context's user on the context's
    /// room, and tells every other user of the room what the user did.
    pub fn transition_user_operation(&mut self, msg: UserOperation) -> (out: Result<
        Vec<SplendorMsg>,
        EngineFault,
    >)
        requires
            old(self).inv(),
        ensures
            final(self).inv(),
            final(self).rng == old(self).rng,
            match out {
                Ok(msgs) => {
                    &&& old(self).state@.operation_fault(msg@) is None
                    &&& final(self).state@ == old(self).state@.after(msg@)
                    &&& views(msgs@) == old(self).state@.operation_answers(msg@)
                },
                Err(fault) => {
                    &&& old(self).state@.operation_fault(msg@) == Some(fault)
                    &&& final(self).state@ == old(self).state@
                },
            },
    {
        if self.state.cur_userid == i32::MIN {
            return Err(EngineFault::IllegalOperation);
        }
        let roomid = self.state.cur_roomid;
        let others = -self.state.cur_userid;
        let echo = msg.clone();
        let answered = match msg.operation {
            Operation::Take(take) => self.transition_take(take),
            Operation::Purchase(purchase) => self.transition_purchase(purchase),
            Operation::Reserve(reserve) => self.transition_reserve(reserve),
        };
        match answered {
            Err(fault) => Err(fault),
            Ok(msgs) => {
                let mut msgs = msgs;
                let ghost told = views(msgs@);
                let last = mb::notify_msg_args(roomid, others, mb::user_op(echo));
                msgs.push(last);
                assert(views(msgs@) =~= told.push(last@));
                Ok(msgs)
            },
        }
    }

    /// Hands the context's user one token of each listed kind from the
    /// board of the context's room, and tells the room its new state.
    pub fn transition_take(&mut self, msg: Take) -> (out: Result<Vec<SplendorMsg>, EngineFault>)
        requires
            old(self).inv(),
        ensures
            final(self).inv(),
            final(self).rng == old(self).rng,
            match out {
                Ok(msgs) => {
                    &&& old(self).state@.room_fault(OperationView::Take(msg.resources@)) is None
                    &&& final(self).state@ == old(self).state@.after(
                        OperationView::Take(msg.resources@),
                    )
                    &&& views(msgs@) == old(self).state@.answers(
                        OperationView::Take(msg.resources@),
                    )
                },
                Err(fault) => {
                    &&& old(self).state@.room_fault(OperationView::Take(msg.resources@)) == Some(
                        fault,
                    )
                    &&& final(self).state@ == old(self).state@
                },
            },
    {
        broadcast use vstd::std_specs::hash::group_hash_axioms;

        let roomid = self.state.cur_roomid;
        let userid = #[verifier::truncate]
        (self.state.cur_userid as u32);
        let ghost before = self.state@;
        match self.state.roomid_to_game_state.remove(&roomid) {
            None => {
                assert(self.state@.rooms =~= before.rooms);
                Err(EngineFault::NotFound)
            },
            Some(game) => {
                let mut game = game;
                assert(before.rooms.contains_key(roomid));
                assert(game@ == before.rooms[roomid]);
                let done = game.take(userid, &msg.resources);
                let told = match done {
                    Ok(_) => Some(game.get_pub_state()),
                    Err(_) => None,
                };
                let ghost room = game@;
                self.state.roomid_to_game_state.insert(roomid, game);
                assert(self.state@.rooms =~= before.rooms.insert(roomid, room));
                match done {
                    Err(fault) => {
                        assert(self.state@.rooms =~= before.rooms);
                        Err(fault)
                    },
                    Ok(_) => self.tell_state(told),
                }
            },
        }
    }

    /// Buys a card for the context's user in the context's room, and tells
    /// the room its new state.
    pub fn transition_purchase(&mut self, msg: Purchase) -> (out: Result<
        Vec<SplendorMsg>,
        EngineFault,
    >)
        requires
            old(self).inv(),
        ensures
            final(self).inv(),
            final(self).rng == old(self).rng,
            match out {
                Ok(msgs) => {
                    &&& old(self).state@.room_fault(OperationView::Purchase(msg)) is None
                    &&& final(self).state@ == old(self).state@.after(OperationView::Purchase(msg))
                    &&& views(msgs@) == old(self).state@.answers(OperationView::Purchase(msg))
                },
                Err(fault) => {
                    &&& old(self).state@.room_fault(OperationView::Purchase(msg)) == Some(fault)
                    &&& final(self).state@ == old(self).state@
                },
            },
    {
        broadcast use vstd::std_specs::hash::group_hash_axioms;

        let roomid = self.state.cur_roomid;
        let userid = #[verifier::truncate]
        (self.state.cur_userid as u32);
        let ghost before = self.state@;
        match self.state.roomid_to_game_state.remove(&roomid) {
            None => {
                assert(self.state@.rooms =~= before.rooms);
                Err(EngineFault::NotFound)
            },
            Some(game) => {
                let mut game = game;
                assert(before.rooms.contains_key(roomid));
                assert(game@ == before.rooms[roomid]);
                let done = game.purchase(userid, msg.development_level, msg.index);
                let told = match done {
                    Ok(_) => Some(game.get_pub_state()),
                    Err(_) => None,
                };
                let ghost room = game@;
                self.state.roomid_to_game_state.insert(roomid, game);
                assert(self.state@.rooms =~= before.rooms.insert(roomid, room));
                match done {
                    Err(fault) => {
                        assert(self.state@.rooms =~= before.rooms);
                        Err(fault)
                    },
                    Ok(_) => self.tell_state(told),
                }
            },
        }
    }

    /// Reserves a card for the context's user in the context's room, and
    /// tells the room its new state. Where the card is the top of a deck, the
    /// user alone is told first which card it is.
    pub fn transition_reserve(&mut self, msg: Reserve) -> (out: Result<
        Vec<SplendorMsg>,
        EngineFault,
    >)
        requires
            old(self).inv(),
        ensures
            final(self).inv(),
            final(self).rng == old(self).rng,
            match out {
                Ok(msgs) => {
                    &&& old(self).state@.room_fault(OperationView::Reserve(msg)) is None
                    &&& final(self).state@ == old(self).state@.after(OperationView::Reserve(msg))
                    &&& views(msgs@) == old(self).state@.answers(OperationView::Reserve(msg))
                },
                Err(fault) => {
                    &&& old(self).state@.room_fault(OperationView::Reserve(msg)) == Some(fault)
                    &&& final(self).state@ == old(self).state@
                },
            },
    {
        broadcast use vstd::std_specs::hash::group_hash_axioms;

        let roomid = self.state.cur_roomid;
        let userid = #[verifier::truncate]
        (self.state.cur_userid as u32);
        let ghost before = self.state@;
        match self.state.roomid_to_game_state.remove(&roomid) {
            None => {
                assert(self.state@.rooms =~= before.rooms);
                Err(EngineFault::NotFound)
            },
            Some(game) => {
                let mut game = game;
                assert(before.rooms.contains_key(roomid));
                assert(game@ == before.rooms[roomid]);
                let done = game.reserve(userid, msg.development_level, msg.index);
                let told = match done {
                    Ok(_) => Some(game.get_pub_state()),
                    Err(_) => None,
                };
                let ghost room = game@;
                self.state.roomid_to_game_state.insert(roomid, game);
                assert(self.state@.rooms =~= before.rooms.insert(roomid, room));
                match done {
                    Err(fault) => {
                        assert(self.state@.rooms =~= before.rooms);
                        Err(fault)
                    },
                    Ok(secret) => {
                        let mut msgs: Vec<SplendorMsg> = Vec::new();
                        match secret {
                            Some(card) => {
                                msgs.push(
                                    mb::notify_msg_args(
                                        roomid,
                                        self.state.cur_userid,
                                        mb::reserve_rsp(card),
                                    ),
                                );
                            },
                            None => {},
                        }
                        let ghost first = views(msgs@);
                        match told {
                            Some(public) => {
                                let last = mb::notify_msg_args(roomid, 0, mb::game_state(public));
                                msgs.push(last);
                                assert(views(msgs@) =~= first.push(last@));
                            },
                            None => {
                                assert(false);
                            },
                        }
                        assert(views(msgs@) =~= before.answers(OperationView::Reserve(msg)));
                        Ok(msgs)
                    },
                }
            },
        }
    }

    /// The notice of the public state `told` of the context's room to all
    /// its users.
    fn tell_state(&self, told: Option<crate::splendor::messages::GameState>) -> (out: Result<
        Vec<SplendorMsg>,
        EngineFault,
    >)
        requires
            told is Some,
        ensures
            out is Ok,
            views(out->Ok_0@) == seq![
                notice_for(self.state@.cur_roomid, 0, NoticeView::State(told->0@)),
            ],
    {
        match told {
            Some(public) => {
                let msg = mb::notify_msg_args(self.state.cur_roomid, 0, mb::game_state(public));
                let msgs: Vec<SplendorMsg> = vec![msg];
                assert(views(msgs@) =~= seq![msg@]);
                Ok(msgs)
            },
            None => Err(EngineFault::InvariantViolation),
        }
    }
}

impl StateMachine for SplendorStateMachine {
    type Settings = StartGameSettings;

    type Operation = UserOperation;

    type Notice = NotifyMsg;

    /// Every room is well formed.
    open spec fn inv(&self) -> bool {
        self.state@.wf()
    }

    /// An answer that reports success is taken note of; one that reports
    /// an error is handed on as a refused registration.
    open spec fn register_ret_post(
        pre: Self,
        msg: RegisterRet,
        post: Self,
        out: Outcome<StartGameSettings, UserOperation, NotifyMsg>,
    ) -> bool {
        &&& post == pre
        &&& match out {
            Ok(msgs) => msg.err == 0 && msgs@.len() == 0,
            Err(failure) => msg.err != 0 && failure == Failure::RegistrationRefused(msg.err),
        }
    }

    /// The room is opened and its users are told how the game starts; or
    /// the request is refused and nothing changes.
    open spec fn start_game_args_post(
        pre: Self,
        msg: StartGameArgs<StartGameSettings>,
        post: Self,
        out: Outcome<StartGameSettings, UserOperation, NotifyMsg>,
    ) -> bool {
        let fault = if msg.custom is None {
            Some(EngineFault::IllegalOperation)
        } else {
            pre.state@.new_game_fault(msg.room_id, msg.user_id@)
        };
        &&& post.state@.cur_roomid == pre.state@.cur_roomid
        &&& post.state@.cur_userid == pre.state@.cur_userid
        &&& match out {
            Ok(msgs) => {
                &&& fault is None
                &&& post.state@.rooms.contains_key(msg.room_id)
                &&& post.state@.rooms == pre.state@.rooms.insert(
                    msg.room_id,
                    post.state@.rooms[msg.room_id],
                )
                &&& is_new_room(
                    post.state@.rooms[msg.room_id],
                    msg.user_id@,
                    msg.custom->0.value.round_time,
                )
                &&& exists|first: i32|
                    0 <= first < msg.user_id@.len() && views(msgs@) == seq![
                        #[trigger] notice_for(
                            msg.room_id,
                            0,
                            NoticeView::GameStart(
                                GameStartView {
                                    first_player: first,
                                    state: post.state@.rooms[msg.room_id].public(),
                                },
                            ),
                        ),
                    ]
            },
            Err(failure) => {
                &&& fault is Some
                &&& failure == Failure::Fault(fault->0)
                &&& post.state@ == pre.state@
            },
        }
    }

    /// A query is answered with nothing.
    open spec fn query_state_args_post(
        pre: Self,
        msg: QueryStateArgs,
        post: Self,
        out: Outcome<StartGameSettings, UserOperation, NotifyMsg>,
    ) -> bool {
        post == pre && out is Ok && out->Ok_0@.len() == 0
    }

    /// The context is set to the room and the user of the message, and the
    /// operation is carried out in it.
    open spec fn user_operation_args_post(
        pre: Self,
        msg: UserOperationArgs<UserOperation>,
        post: Self,
        out: Outcome<StartGameSettings, UserOperation, NotifyMsg>,
    ) -> bool {
        let context = GlobalView {
            cur_roomid: msg.room_id,
            cur_userid: msg.user_id as i32,
            ..pre.state@
        };
        &&& post.rng == pre.rng
        &&& match msg.custom {
            None => post.state@ == context && out == Err::<Vec<SplendorMsg>, Failure>(
                Failure::Fault(EngineFault::IllegalOperation),
            ),
            Some(any) => match out {
                Ok(msgs) => {
                    &&& context.operation_fault(any.value@) is None
                    &&& post.state@ == context.after(any.value@)
                    &&& views(msgs@) == context.operation_answers(any.value@)
                },
                Err(failure) => {
                    &&& context.operation_fault(any.value@) is Some
                    &&& failure == Failure::Fault(context.operation_fault(any.value@)->0)
                    &&& post.state@ == context
                },
            },
        }
    }

    fn transition_register_ret(&mut self, msg: RegisterRet) -> (out: Outcome<
        StartGameSettings,
        UserOperation,
        NotifyMsg,
    >) {
        if msg.err != 0 {
            return Err(Failure::RegistrationRefused(msg.err));
        }
        Ok(Vec::new())
    }

    fn transition_start_game_args(&mut self, msg: StartGameArgs<StartGameSettings>) -> (out:
        Outcome<StartGameSettings, UserOperation, NotifyMsg>) {
        let game_settings = match msg.custom {
            Some(any) => crate::util::unpack(any),
            None => {
                return Err(Failure::Fault(EngineFault::IllegalOperation));
            },
        };
        match self.state.new_game(msg.room_id, msg.user_id, game_settings, &mut self.rng) {
            Err(fault) => Err(Failure::Fault(fault)),
            Ok(start) => {
                let ghost first = start@.first_player;
                let told = mb::notify_msg_args(msg.room_id, 0, mb::game_start(start));
                let msgs: Vec<SplendorMsg> = vec![told];
                assert(views(msgs@) =~= seq![told@]);
                assert(told@ == notice_for(
                    msg.room_id,
                    0,
                    NoticeView::GameStart(
                        GameStartView {
                            first_player: first,
                            state: self.state@.rooms[msg.room_id].public(),
                        },
                    ),
                ));
                Ok(msgs)
            },
        }
    }

    fn transition_query_state_args(&mut self, _msg: QueryStateArgs) -> (out: Outcome<
        StartGameSettings,
        UserOperation,
        NotifyMsg,
    >) {
        Ok(Vec::new())
    }

    fn transition_user_operation_args(&mut self, msg: UserOperationArgs<UserOperation>) -> (out:
        Outcome<StartGameSettings, UserOperation, NotifyMsg>) {
        self.state.cur_roomid = msg.room_id;
        self.state.cur_userid = #[verifier::truncate]
        (msg.user_id as i32);
        assert(self.state@.rooms == old(self).state@.rooms);
        assert(self.state@.wf()) by {
            assert forall|room: i32| #[trigger]
                self.state@.rooms.contains_key(room) implies self.state@.rooms[room].wf() by {
                assert(old(self).state@.rooms.contains_key(room));
            }
        }
        let operation = match msg.custom {
            Some(any) => crate::util::unpack(any),
            None => {
                return Err(Failure::Fault(EngineFault::IllegalOperation));
            },
        };
        match self.transition_user_operation(operation) {
            Ok(msgs) => Ok(msgs),
            Err(fault) => Err(Failure::Fault(fault)),
        }
    }
}

} // verus!
