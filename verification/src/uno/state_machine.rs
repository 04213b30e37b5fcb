//! The engine of the game: it opens rooms, carries out the operations of
//! their users and tells the users what has happened.

use crate::fault::{EngineFault, Failure};
use crate::msg_builder as pmb;
use crate::msg_builder::closing;
use crate::protocol::{QueryStateArgs, RegisterRet, StartGameArgs, UserOperationArgs};
use crate::random::{seeded, seeded_generator, unseeded};
use crate::seqs::views;
use crate::splendor::model::distinct;
use crate::state_machine::{Outcome, StateMachine};
use crate::uno::card::{DeckView, DECK_SIZE, HAND_SIZE};
use crate::uno::messages::{
    Card, Draw, NoticeView, NotifyMsg, Operation, Play, Skip, StartGameSettings, UserOperation,
    BLACK, DRAW_FOUR, DRAW_TWO,
};
use crate::uno::msg_builder as mb;
use crate::uno::msg_builder::{notice_for, UnoMsg, UnoMsgView};
use crate::uno::state::{seats, GameView, GlobalState, GlobalView, Opening, PlayerState};
use rand::rngs::StdRng;
use vstd::prelude::*;

verus! {

impl GlobalView {
    /// The room of the context.
    pub open spec fn room(self) -> GameView {
        self.rooms[self.cur_roomid]
    }

    /// Why the context's user cannot draw `number` cards, if so: the room
    /// or the user is unknown, the number is negative, the deck has fewer
    /// cards, or the hand would hold more than can be counted.
    pub open spec fn draw_fault(self, number: i32) -> Option<EngineFault> {
        if !self.rooms.contains_key(self.cur_roomid) {
            Some(EngineFault::NotFound)
        } else if !self.room().players.contains_key(self.user()) {
            Some(EngineFault::NotFound)
        } else if number < 0 {
            Some(EngineFault::IllegalOperation)
        } else if number > self.room().deck.len() || self.room().players[
        self.user()].handcards_num + number > i32::MAX {
            Some(EngineFault::InvariantViolation)
        } else {
            None
        }
    }

    /// Why the context's user cannot play a card, if so: the room or the
    /// user is unknown, or the user has no card in hand.
    pub open spec fn play_fault(self) -> Option<EngineFault> {
        if !self.rooms.contains_key(self.cur_roomid) {
            Some(EngineFault::NotFound)
        } else if !self.room().players.contains_key(self.user()) {
            Some(EngineFault::NotFound)
        } else if self.room().players[self.user()].handcards_num <= 0 {
            Some(EngineFault::InvariantViolation)
        } else {
            None
        }
    }

    /// Whether the card that the context's user plays is the last of the hand.
    pub open spec fn plays_last_card(self) -> bool {
        self.room().players[self.user()].handcards_num == 1
    }

    /// The rooms after the context's user played a card: the card lies on
    /// the discard pile and the hand is one card smaller; where it was the
    /// last card of the hand, the room is closed.
    pub open spec fn after_play(self, play: Play) -> GlobalView {
        let room = self.room();
        if self.plays_last_card() {
            GlobalView { rooms: self.rooms.remove(self.cur_roomid), ..self }
        } else {
            GlobalView {
                rooms: self.rooms.insert(
                    self.cur_roomid,
                    GameView {
                        deck: DeckView {
                            discard_pile: seq![play.card] + room.deck.discard_pile,
                            ..room.deck
                        },
                        players: room.players.insert(
                            self.user(),
                            PlayerState {
                                handcards_num: (room.players[self.user()].handcards_num - 1) as i32,
                            },
                        ),
                        ..room
                    },
                ),
                ..self
            }
        }
    }

    /// What the users are told of a card that was played: the card, and,
    /// where it was the last of the hand, that the game is over.
    pub open spec fn play_answers(self, play: Play) -> Seq<UnoMsgView> {
        let told = notice_for(self.cur_roomid, 0, NoticeView::Play(play));
        if self.plays_last_card() {
            seq![told, closing(0, self.cur_roomid)]
        } else {
            seq![told]
        }
    }
}

/// The engine of the game.
pub struct UnoStateMachine {
    pub state: GlobalState,
    /// What the decks are shuffled from.
    pub rng: StdRng,
}

impl UnoStateMachine {
    /// An engine without rooms, whose draws nobody can foresee. Where the
    /// system has no random numbers to give, the draws follow from the seed zero.
    pub fn new() -> (engine: UnoStateMachine)
        ensures
            engine.state@.rooms == Map::<i32, GameView>::empty(),
            engine.state@.cur_roomid == -1,
            engine.state@.cur_userid == -1,
            engine.inv(),
    {
        let rng = match unseeded() {
            Some(rng) => rng,
            None => seeded(0),
        };
        UnoStateMachine { state: GlobalState::new(), rng }
    }

    /// An engine without rooms, with the generator that `seed` determines.
    pub fn with_seed(seed: u64) -> (engine: UnoStateMachine)
        ensures
            engine.state@.rooms == Map::<i32, GameView>::empty(),
            engine.state@.cur_roomid == -1,
            engine.state@.cur_userid == -1,
            engine.inv(),
            engine.rng == seeded_generator(seed),
    {
        UnoStateMachine { state: GlobalState::new(), rng: seeded(seed) }
    }

    /// Carries out the operation of the context's user on the context's room.
    pub fn transition_user_operation(&mut self, msg: UserOperation) -> (out: Result<
        Vec<UnoMsg>,
        EngineFault,
    >)
        requires
            old(self).inv(),
        ensures
            final(self).inv(),
            match msg.operation {
                Operation::Draw(draw) => drawn(*old(self), draw, *final(self), out),
                Operation::Skip(skip) => skipped(*old(self), *final(self), out),
                Operation::Play(play) => played(*old(self), play, *final(self), out),
            },
    {
        match msg.operation {
            Operation::Draw(draw) => self.transition_draw(draw),
            Operation::Skip(skip) => self.transition_skip(skip),
            Operation::Play(play) => self.transition_play(play),
        }
    }

    /// Draws cards for the context's user: the room is told how many, the
    /// user which.
    pub fn transition_draw(&mut self, msg: Draw) -> (out: Result<Vec<UnoMsg>, EngineFault>)
        requires
            old(self).inv(),
        ensures
            final(self).inv(),
            drawn(*old(self), msg, *final(self), out),
    {
        broadcast use vstd::std_specs::hash::group_hash_axioms;

        let roomid = self.state.cur_roomid;
        let userid = #[verifier::truncate]
        (self.state.cur_userid as u32);
        let ghost before = self.state@;
        match self.state.roomid_to_game_state.remove(&roomid) {
            None => {
                assert(self.state@.rooms =~= before.rooms);
                Err(EngineFault::NotFound)
            },
            Some(game) => {
                let mut game = game;
                let ghost room = game@;
                assert(before.rooms.contains_key(roomid));
                assert(room == before.rooms[roomid]);
                let done = match game.userid_to_player_state.get(&userid) {
                    None => Err(EngineFault::NotFound),
                    Some(player) => {
                        let held = player.handcards_num;
                        if msg.number >= 0 && held > 2147483647 - msg.number {
                            Err(EngineFault::InvariantViolation)
                        } else {
                            match game.deck.draw_num(msg.number, &mut self.rng) {
                                Err(fault) => Err(fault),
                                Ok(cards) => {
                                    game.userid_to_player_state.insert(
                                        userid,
                                        PlayerState { handcards_num: held + msg.number },
                                    );
                                    Ok(cards)
                                },
                            }
                        }
                    },
                };
                let ghost now = game@;
                self.state.roomid_to_game_state.insert(roomid, game);
                assert(self.state@.rooms =~= before.rooms.insert(roomid, now));
                match done {
                    Err(fault) => {
                        assert(now.players =~= room.players);
                        assert(self.state@.rooms =~= before.rooms);
                        Err(fault)
                    },
                    Ok(cards) => {
                        assert(now.wf()) by {
                            assert forall|user: u32|
                                now.players.contains_key(user) <==> now.roster.contains(user) by {
                                assert(room.players.contains_key(user) <==> room.roster.contains(
                                    user,
                                ));
                            }
                        }
                        let first = mb::notify_msg_args(roomid, 0, mb::draw(msg.number));
                        let second = mb::notify_msg_args(
                            roomid,
                            self.state.cur_userid,
                            mb::draw_rsp(cards),
                        );
                        let msgs: Vec<UnoMsg> = vec![first, second];
                        assert(views(msgs@) =~= seq![first@, second@]);
                        Ok(msgs)
                    },
                }
            },
        }
    }

    /// Tells the room that a player passes.
    pub fn transition_skip(&mut self, _msg: Skip) -> (out: Result<Vec<UnoMsg>, EngineFault>)
        requires
            old(self).inv(),
        ensures
            final(self).inv(),
            skipped(*old(self), *final(self), out),
    {
        let told = mb::notify_msg_args(self.state.cur_roomid, 0, mb::skip());
        let msgs: Vec<UnoMsg> = vec![told];
        assert(views(msgs@) =~= seq![told@]);
        Ok(msgs)
    }

    /// Plays a card of the context's user: the card goes on the discard
    /// pile, and the room is told. Where it was the user's last card, the
    /// room is told that the game is over, and is closed.
    pub fn transition_play(&mut self, msg: Play) -> (out: Result<Vec<UnoMsg>, EngineFault>)
        requires
            old(self).inv(),
        ensures
            final(self).inv(),
            played(*old(self), msg, *final(self), out),
    {
        broadcast use vstd::std_specs::hash::group_hash_axioms;

        let roomid = self.state.cur_roomid;
        let userid = #[verifier::truncate]
        (self.state.cur_userid as u32);
        let ghost before = self.state@;
        match self.state.roomid_to_game_state.remove(&roomid) {
            None => {
                assert(self.state@.rooms =~= before.rooms);
                Err(EngineFault::NotFound)
            },
            Some(game) => {
                let mut game = game;
                let ghost room = game@;
                assert(before.rooms.contains_key(roomid));
                assert(room == before.rooms[roomid]);
                let held = match game.userid_to_player_state.get(&userid) {
                    None => Err(EngineFault::NotFound),
                    Some(player) => if player.handcards_num <= 0 {
                        Err(EngineFault::InvariantViolation)
                    } else {
                        Ok(player.handcards_num)
                    },
                };
                match held {
                    Err(fault) => {
                        self.state.roomid_to_game_state.insert(roomid, game);
                        assert(self.state@.rooms =~= before.rooms);
                        Err(fault)
                    },
                    Ok(held) => {
                        let told = mb::notify_msg_args(
                            roomid,
                            0,
                            mb::play(msg.card, msg.next_color),
                        );
                        let mut msgs: Vec<UnoMsg> = vec![told];
                        assert(views(msgs@) =~= seq![told@]);
                        if held == 1 {
                            let over = pmb::close_game_args(0, roomid);
                            msgs.push(over);
                            assert(views(msgs@) =~= seq![told@, over@]);
                            assert(self.state@.rooms =~= before.rooms.remove(roomid));
                            assert(self.state@.wf()) by {
                                assert forall|other: i32| #[trigger]
                                    self.state@.rooms.contains_key(
                                        other,
                                    ) implies self.state@.rooms[other].wf() by {
                                    assert(before.rooms.contains_key(other));
                                }
                            }
                        } else {
                            game.deck.discard(msg.card);
                            game.userid_to_player_state.insert(
                                userid,
                                PlayerState { handcards_num: held - 1 },
                            );
                            let ghost now = game@;
                            assert(now.wf()) by {
                                assert forall|user: u32|
                                    now.players.contains_key(user) <==> now.roster.contains(
                                        user,
                                    ) by {
                                    assert(room.players.contains_key(user)
                                        <==> room.roster.contains(user));
                                }
                            }
                            self.state.roomid_to_game_state.insert(roomid, game);
                            assert(self.state@.rooms =~= before.rooms.insert(roomid, now));
                            assert(self.state@ == before.after_play(msg));
                        }
                        Ok(msgs)
                    },
                }
            },
        }
    }
}

/// What drawing does: the deck of the context's room loses the cards, from
/// the top of its pile as long as the pile has that many; the user's hand
/// gains them; the room is told how many cards, the user alone which.
pub open spec fn drawn(
    pre: UnoStateMachine,
    msg: Draw,
    post: UnoStateMachine,
    out: Result<Vec<UnoMsg>, EngineFault>,
) -> bool {
    let before = pre.state@;
    let after = post.state@;
    match out {
        Ok(msgs) => {
            let room = before.room();
            let now = after.room();
            &&& before.draw_fault(msg.number) is None
            &&& after.cur_roomid == before.cur_roomid
            &&& after.cur_userid == before.cur_userid
            &&& after.rooms == before.rooms.insert(before.cur_roomid, now)
            &&& now.roster == room.roster
            &&& now.player_num == room.player_num
            &&& now.round_time == room.round_time
            &&& now.players == room.players.insert(
                before.user(),
                PlayerState {
                    handcards_num: (room.players[before.user()].handcards_num + msg.number) as i32,
                },
            )
            &&& now.deck.len() == room.deck.len() - msg.number
            &&& exists|cards: Seq<Card>|
                {
                    &&& cards.len() == msg.number
                    &&& cards.to_multiset().add(now.deck.cards()) == room.deck.cards()
                    &&& msg.number <= room.deck.pile.len() ==> cards == room.deck.pile.take(
                        msg.number as int,
                    ) && now.deck.pile == room.deck.pile.skip(msg.number as int)
                        && now.deck.discard_pile == room.deck.discard_pile
                    &&& views(msgs@) == seq![
                        notice_for(before.cur_roomid, 0, NoticeView::Draw(msg)),
                        #[trigger] notice_for(
                            before.cur_roomid,
                            before.cur_userid,
                            NoticeView::DrawRsp(cards),
                        ),
                    ]
                }
        },
        Err(fault) => before.draw_fault(msg.number) == Some(fault) && after == before,
    }
}

/// What passing does: the room is told, and nothing changes.
pub open spec fn skipped(
    pre: UnoStateMachine,
    post: UnoStateMachine,
    out: Result<Vec<UnoMsg>, EngineFault>,
) -> bool {
    &&& post == pre
    &&& out is Ok
    &&& views(out->Ok_0@) == seq![notice_for(pre.state@.cur_roomid, 0, NoticeView::Skip(Skip {  }))]
}

/// What playing a card does.
pub open spec fn played(
    pre: UnoStateMachine,
    msg: Play,
    post: UnoStateMachine,
    out: Result<Vec<UnoMsg>, EngineFault>,
) -> bool {
    &&& post.rng == pre.rng
    &&& match out {
        Ok(msgs) => {
            &&& pre.state@.play_fault() is None
            &&& post.state@ == pre.state@.after_play(msg)
            &&& views(msgs@) == pre.state@.play_answers(msg)
        },
        Err(fault) => pre.state@.play_fault() == Some(fault) && post.state@ == pre.state@,
    }
}

/// The hand of the player at seat `i`, as the player is told of it.
pub open spec fn hand_notice(
    room_id: i32,
    user: u32,
    hand: Seq<Card>,
    flipped_card: Card,
    first_player: u32,
) -> UnoMsgView {
    notice_for(
        room_id,
        user as i32,
        NoticeView::GameStart { init_handcards: hand, flipped_card, first_player },
    )
}

/// Whether the notice tells `user` a hand of seven cards, the card that
/// lies face up and who moves first.
pub open spec fn tells_hand(
    told: UnoMsgView,
    room_id: i32,
    user: u32,
    flipped_card: Card,
    first_player: u32,
) -> bool {
    exists|hand: Seq<Card>|
        hand.len() == HAND_SIZE && told == #[trigger] hand_notice(
            room_id,
            user,
            hand,
            flipped_card,
            first_player,
        )
}

/// Whether the notices open a game: one for each player of the roster, in
/// its order.
pub open spec fn opens(
    told: Seq<UnoMsgView>,
    room_id: i32,
    roster: Seq<u32>,
    flipped_card: Card,
    first_player: u32,
) -> bool {
    &&& told.len() == roster.len()
    &&& forall|i: int|
        0 <= i < roster.len() ==> tells_hand(
            #[trigger] told[i],
            room_id,
            roster[i],
            flipped_card,
            first_player,
        )
}

/// The notices that open a game: to each player the player's hand, the
/// card that lies face up and who moves first.
fn tell_hands(room_id: i32, opening: Opening) -> (msgs: Vec<UnoMsg>)
    requires
        forall|k: int|
            0 <= k < opening.hands@.len() ==> (#[trigger] opening.hands@[k]).1@.len() == HAND_SIZE,
    ensures
        opens(
            views(msgs@),
            room_id,
            seats(opening.hands@),
            opening.flipped_card,
            opening.first_player,
        ),
{
    let mut msgs: Vec<UnoMsg> = Vec::new();
    let mut i: usize = 0;
    while i < opening.hands.len()
        invariant
            0 <= i <= opening.hands@.len(),
            forall|k: int|
                0 <= k < opening.hands@.len() ==> (#[trigger] opening.hands@[k]).1@.len()
                    == HAND_SIZE,
            msgs@.len() == i,
            forall|k: int|
                0 <= k < i ==> #[trigger] views(msgs@)[k] == hand_notice(
                    room_id,
                    opening.hands@[k].0,
                    opening.hands@[k].1@,
                    opening.flipped_card,
                    opening.first_player,
                ),
        decreases opening.hands@.len() - i,
    {
        let userid = opening.hands[i].0;
        let hand = opening.hands[i].1.clone();
        let ghost told = views(msgs@);
        let next = mb::notify_msg_args(
            room_id,
            #[verifier::truncate]
            (userid as i32),
            mb::game_start(hand, opening.flipped_card, opening.first_player),
        );
        msgs.push(next);
        assert(views(msgs@) =~= told.push(next@));
        i = i + 1;
    }
    proof {
        assert forall|k: int| 0 <= k < opening.hands@.len() implies tells_hand(
            #[trigger] views(msgs@)[k],
            room_id,
            seats(opening.hands@)[k],
            opening.flipped_card,
            opening.first_player,
        ) by {
            let hand = opening.hands@[k].1@;
            assert(hand.len() == HAND_SIZE);
            assert(views(msgs@)[k] == hand_notice(
                room_id,
                opening.hands@[k].0,
                hand,
                opening.flipped_card,
                opening.first_player,
            ));
        }
    }
    msgs
}

/// What opening a room does: the room is opened and each of its players is
/// told the player's hand, the card that lies face up and who moves first;
/// or the request is refused and nothing changes. A room that does not
/// exist yet is opened for any number of users from one to fourteen.
pub open spec fn started(
    pre: UnoStateMachine,
    msg: StartGameArgs<StartGameSettings>,
    post: UnoStateMachine,
    out: Outcome<StartGameSettings, UserOperation, NotifyMsg>,
) -> bool {
    &&& post.state@.cur_roomid == pre.state@.cur_roomid
    &&& post.state@.cur_userid == pre.state@.cur_userid
    &&& msg.custom is Some && !pre.state@.rooms.contains_key(msg.room_id) && 0 < msg.user_id@.len()
        && HAND_SIZE * msg.user_id@.len() + 8 < DECK_SIZE ==> out is Ok
    &&& match out {
        Ok(msgs) => {
            &&& msg.custom is Some
            &&& !pre.state@.rooms.contains_key(msg.room_id)
            &&& msg.user_id@.len() > 0
            &&& post.state@.rooms.contains_key(msg.room_id)
            &&& post.state@.rooms == pre.state@.rooms.insert(
                msg.room_id,
                post.state@.rooms[msg.room_id],
            )
            &&& post.state@.rooms[msg.room_id].roster == distinct(msg.user_id@)
            &&& exists|flipped_card: Card, first_player: u32|
                {
                    &&& flipped_card.color != BLACK
                    &&& flipped_card.text != DRAW_TWO
                    &&& flipped_card.text != DRAW_FOUR
                    &&& first_player < msg.user_id@.len()
                    &&& #[trigger] opens(
                        views(msgs@),
                        msg.room_id,
                        distinct(msg.user_id@),
                        flipped_card,
                        first_player,
                    )
                }
        },
        Err(failure) => {
            &&& post.state@ == pre.state@
            &&& failure is Fault
            &&& msg.custom is None ==> failure == Failure::Fault(EngineFault::IllegalOperation)
            &&& msg.custom is Some && pre.state@.rooms.contains_key(msg.room_id) ==> failure
                == Failure::Fault(EngineFault::InvariantViolation)
        },
    }

}

/// A room was opened where these notices open its game.
pub proof fn lemma_started(
    pre: UnoStateMachine,
    msg: StartGameArgs<StartGameSettings>,
    post: UnoStateMachine,
    msgs: Vec<UnoMsg>,
    flipped_card: Card,
    first_player: u32,
)
    requires
        post.state@.cur_roomid == pre.state@.cur_roomid,
        post.state@.cur_userid == pre.state@.cur_userid,
        msg.custom is Some,
        !pre.state@.rooms.contains_key(msg.room_id),
        msg.user_id@.len() > 0,
        HAND_SIZE * msg.user_id@.len() < DECK_SIZE,
        post.state@.rooms.contains_key(msg.room_id),
        post.state@.rooms == pre.state@.rooms.insert(msg.room_id, post.state@.rooms[msg.room_id]),
        post.state@.rooms[msg.room_id].roster == distinct(msg.user_id@),
        flipped_card.color != BLACK,
        flipped_card.text != DRAW_TWO,
        flipped_card.text != DRAW_FOUR,
        first_player < msg.user_id@.len(),
        opens(views(msgs@), msg.room_id, distinct(msg.user_id@), flipped_card, first_player),
    ensures
        started(pre, msg, post, Ok::<Vec<UnoMsg>, Failure>(msgs)),
{
    let out = Ok::<Vec<UnoMsg>, Failure>(msgs);
    assert(out->Ok_0 == msgs);
    assert(opens(
        views(out->Ok_0@),
        msg.room_id,
        distinct(msg.user_id@),
        flipped_card,
        first_player,
    ));
}

impl StateMachine for UnoStateMachine {
    type Settings = StartGameSettings;

    type Operation = UserOperation;

    type Notice = NotifyMsg;

    /// Every room is well formed.
    open spec fn inv(&self) -> bool {
        self.state@.wf()
    }

    /// An answer that reports success is taken note of; one that reports
    /// an error is handed on as a refused registration.
    open spec fn register_ret_post(
        pre: Self,
        msg: RegisterRet,
        post: Self,
        out: Outcome<StartGameSettings, UserOperation, NotifyMsg>,
    ) -> bool {
        &&& post == pre
        &&& match out {
            Ok(msgs) => msg.err == 0 && msgs@.len() == 0,
            Err(failure) => msg.err != 0 && failure == Failure::RegistrationRefused(msg.err),
        }
    }

    /// The room is opened and each of its players is told the player's
    /// hand, the card that lies face up and who moves first; or the request
    /// is refused and nothing changes.
    open spec fn start_game_args_post(
        pre: Self,
        msg: StartGameArgs<StartGameSettings>,
        post: Self,
        out: Outcome<StartGameSettings, UserOperation, NotifyMsg>,
    ) -> bool {
        started(pre, msg, post, out)
    }

    /// A query is answered with nothing.
    open spec fn query_state_args_post(
        pre: Self,
        msg: QueryStateArgs,
        post: Self,
        out: Outcome<StartGameSettings, UserOperation, NotifyMsg>,
    ) -> bool {
        post == pre && out is Ok && out->Ok_0@.len() == 0
    }

    /// The context is set to the room and the user of the message, and the
    /// operation is carried out in it.
    open spec fn user_operation_args_post(
        pre: Self,
        msg: UserOperationArgs<UserOperation>,
        post: Self,
        out: Outcome<StartGameSettings, UserOperation, NotifyMsg>,
    ) -> bool {
        match msg.custom {
            None => post.state@.rooms == pre.state@.rooms && post.state@.cur_roomid == msg.room_id
                && post.state@.cur_userid == msg.user_id as i32 && out == Err::<
                Vec<UnoMsg>,
                Failure,
            >(Failure::Fault(EngineFault::IllegalOperation)),
            Some(any) => {
                let context = in_context(pre, msg.room_id, msg.user_id);
                match out {
                    Ok(msgs) => carried_out(
                        context,
                        any.value.operation,
                        post,
                        Ok::<Vec<UnoMsg>, EngineFault>(msgs),
                    ),
                    Err(failure) => failure is Fault && carried_out(
                        context,
                        any.value.operation,
                        post,
                        Err::<Vec<UnoMsg>, EngineFault>(failure->Fault_0),
                    ),
                }
            },
        }
    }

    fn transition_register_ret(&mut self, msg: RegisterRet) -> (out: Outcome<
        StartGameSettings,
        UserOperation,
        NotifyMsg,
    >) {
        if msg.err != 0 {
            return Err(Failure::RegistrationRefused(msg.err));
        }
        Ok(Vec::new())
    }

    fn transition_start_game_args(&mut self, msg: StartGameArgs<StartGameSettings>) -> (out:
        Outcome<StartGameSettings, UserOperation, NotifyMsg>) {
        let game_settings = match msg.custom {
            Some(any) => crate::util::unpack(any),
            None => {
                return Err(Failure::Fault(EngineFault::IllegalOperation));
            },
        };
        match self.state.new_game(msg.room_id, msg.user_id, game_settings, &mut self.rng) {
            Err(fault) => Err(Failure::Fault(fault)),
            Ok(opening) => {
                let ghost flipped_card = opening.flipped_card;
                let ghost first_player = opening.first_player;
                let msgs = tell_hands(msg.room_id, opening);
                proof {
                    lemma_started(*old(self), msg, *self, msgs, flipped_card, first_player);
                }
                Ok(msgs)
            },
        }
    }

    fn transition_query_state_args(&mut self, _msg: QueryStateArgs) -> (out: Outcome<
        StartGameSettings,
        UserOperation,
        NotifyMsg,
    >) {
        Ok(Vec::new())
    }

    fn transition_user_operation_args(&mut self, msg: UserOperationArgs<UserOperation>) -> (out:
        Outcome<StartGameSettings, UserOperation, NotifyMsg>) {
        self.state.cur_roomid = msg.room_id;
        self.state.cur_userid = #[verifier::truncate]
        (msg.user_id as i32);
        assert(self.state@.rooms == old(self).state@.rooms);
        assert(self.state@.wf()) by {
            assert forall|room: i32| #[trigger]
                self.state@.rooms.contains_key(room) implies self.state@.rooms[room].wf() by {
                assert(old(self).state@.rooms.contains_key(room));
            }
        }
        let operation = match msg.custom {
            Some(any) => crate::util::unpack(any),
            None => {
                return Err(Failure::Fault(EngineFault::IllegalOperation));
            },
        };
        let ghost context = *self;
        assert(context == in_context(*old(self), msg.room_id, msg.user_id));
        match self.transition_user_operation(operation) {
            Ok(msgs) => {
                assert(carried_out(
                    context,
                    operation.operation,
                    *self,
                    Ok::<Vec<UnoMsg>, EngineFault>(msgs),
                ));
                Ok(msgs)
            },
            Err(fault) => {
                assert(carried_out(
                    context,
                    operation.operation,
                    *self,
                    Err::<Vec<UnoMsg>, EngineFault>(fault),
                ));
                Err(Failure::Fault(fault))
            },
        }
    }
}

/// The engine with its context set to a room and a user.
pub open spec fn in_context(pre: UnoStateMachine, room_id: i32, user_id: u32) -> UnoStateMachine {
    UnoStateMachine {
        state: GlobalState { cur_roomid: room_id, cur_userid: user_id as i32, ..pre.state },
        ..pre
    }
}

/// What carrying out an operation does.
pub open spec fn carried_out(
    pre: UnoStateMachine,
    operation: Operation,
    post: UnoStateMachine,
    out: Result<Vec<UnoMsg>, EngineFault>,
) -> bool {
    match operation {
        Operation::Draw(draw) => drawn(pre, draw, post, out),
        Operation::Skip(skip) => skipped(pre, post, out),
        Operation::Play(play) => played(pre, play, post, out),
    }
}

} // verus!
