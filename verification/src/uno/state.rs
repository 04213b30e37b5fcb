//! The state of the rooms.

use crate::fault::EngineFault;
use crate::random::below;
use crate::splendor::model::distinct;
use crate::uno::card::{
    fresh_deck, has_color, is_black, leading_blacks, lemma_blacks_bound, lemma_blacks_fresh,
    lemma_blacks_shuffled, lemma_blacks_split, lemma_has_color, lemma_leading_blacks, Deck,
    DeckView, DECK_SIZE, HAND_SIZE,
};
use crate::uno::messages::{Card, StartGameSettings, DRAW_FOUR, DRAW_TWO, EMPTY};
use rand::rngs::StdRng;
use std::collections::HashMap;
use vstd::prelude::*;

verus! {

/// What a room knows of a player: the number of cards in the player's hand.
#[derive(Clone, Copy, Debug, PartialEq, Eq, Structural)]
pub struct PlayerState {
    pub handcards_num: i32,
}

impl PlayerState {
    /// A player with a hand as it is dealt.
    pub fn new() -> (player: PlayerState)
        ensures
            player.handcards_num == HAND_SIZE,
    {
        PlayerState { handcards_num: 7 }
    }
}

/// The model of a room.
pub struct GameView {
    /// The number of player ids that the room was opened with.
    pub player_num: nat,
    pub round_time: i32,
    pub deck: DeckView,
    /// The players in the order in which they were first named.
    pub roster: Seq<u32>,
    pub players: Map<u32, PlayerState>,
}

impl GameView {
    /// The roster names each player of the room once.
    pub open spec fn wf(self) -> bool {
        &&& self.roster.no_duplicates()
        &&& 0 < self.roster.len() <= self.player_num
        &&& forall|user: u32| self.players.contains_key(user) <==> self.roster.contains(user)
    }
}

/// How a game starts: the hand of each player of the roster, the card that
/// lies face up, and the seat of the player who moves first.
pub struct Opening {
    pub hands: Vec<(u32, Vec<Card>)>,
    pub flipped_card: Card,
    pub first_player: u32,
}

/// One room.
#[derive(Debug, PartialEq, Eq)]
pub struct GameState {
    pub player_num: usize,
    pub game_settings: StartGameSettings,
    pub deck: Deck,
    pub userid_to_player_state: HashMap<u32, PlayerState>,
    /// The players in the order in which they were first named.
    pub userids: Vec<u32>,
}

impl View for GameState {
    type V = GameView;

    open spec fn view(&self) -> GameView {
        GameView {
            player_num: self.player_num as nat,
            round_time: self.game_settings.round_time,
            deck: self.deck@,
            roster: self.userids@,
            players: self.userid_to_player_state@,
        }
    }
}

impl GameState {
    /// Opens a room for the given players, with a deck freshly shuffled.
    /// An id that is named again is the same player.
    pub fn new(userids: Vec<u32>, game_settings: StartGameSettings, rng: &mut StdRng) -> (game:
        GameState)
        requires
            userids@.len() > 0,
        ensures
            game@.wf(),
            game@.roster == distinct(userids@),
            game@.player_num == userids@.len(),
            game@.round_time == game_settings.round_time,
            game@.deck.pile.to_multiset() == fresh_deck().to_multiset(),
            game@.deck.pile.len() == DECK_SIZE,
            game@.deck.discard_pile.len() == 0,
            forall|user: u32| #[trigger]
                game@.players.contains_key(user) ==> game@.players[user].handcards_num
                    == HAND_SIZE,
    {
        broadcast use vstd::std_specs::hash::group_hash_axioms;

        let mut userid_to_player_state: HashMap<u32, PlayerState> = HashMap::new();
        let mut roster: Vec<u32> = Vec::new();
        let mut i: usize = 0;
        while i < userids.len()
            invariant
                0 <= i <= userids.len(),
                roster@ == distinct(userids@.take(i as int)),
                roster@.no_duplicates(),
                roster@.len() <= i,
                i > 0 ==> roster@.len() > 0,
                forall|user: u32|
                    userid_to_player_state@.contains_key(user) <==> roster@.contains(user),
                forall|user: u32| #[trigger]
                    userid_to_player_state@.contains_key(user)
                        ==> userid_to_player_state@[user].handcards_num == HAND_SIZE,
            decreases userids.len() - i,
        {
            let userid = userids[i];
            proof {
                assert(userids@.take(i + 1).drop_last() =~= userids@.take(i as int));
                assert(userids@.take(i + 1).last() == userid);
            }
            if !userid_to_player_state.contains_key(&userid) {
                let ghost before = roster@;
                userid_to_player_state.insert(userid, PlayerState::new());
                roster.push(userid);
                proof {
                    assert(roster@ == before.push(userid));
                    assert(!before.contains(userid));
                    assert forall|a: int, b: int|
                        0 <= a < roster@.len() && 0 <= b < roster@.len() && a
                            != b implies roster@[a] != roster@[b] by {
                        if a < before.len() {
                            assert(before.contains(before[a]));
                        }
                        if b < before.len() {
                            assert(before.contains(before[b]));
                        }
                    }
                    assert forall|user: u32|
                        userid_to_player_state@.contains_key(user) <==> roster@.contains(
                            user,
                        ) by {
                        if user == userid {
                            assert(roster@[before.len() as int] == userid);
                        } else if before.contains(user) {
                            let at = choose|k: int| 0 <= k < before.len() && before[k] == user;
                            assert(roster@[at] == user);
                        } else if roster@.contains(user) {
                            let at = choose|k: int| 0 <= k < roster@.len() && roster@[k] == user;
                            assert(before[at] == user);
                        }
                    }
                }
            }
            i = i + 1;
        }
        assert(userids@.take(i as int) =~= userids@);
        GameState {
            player_num: userids.len(),
            game_settings,
            deck: Deck::new(rng),
            userid_to_player_state,
            userids: roster,
        }
    }

    /// Starts the game: deals a hand for every id that the room was opened
    /// with, gives the players of the roster theirs, turns cards of the pile
    /// over until one is not black, and draws who moves first. A black card
    /// that was turned over goes below the pile; a card that would make a
    /// player draw loses its text. Refused where the deck cannot supply the
    /// hands, where no card of the pile below them is other than black, and
    /// where the seats cannot be counted.
    pub fn game_start(&mut self, rng: &mut StdRng) -> (started: Result<Opening, EngineFault>)
        requires
            old(self)@.wf(),
        ensures
            final(self)@.wf(),
            final(self)@.roster == old(self)@.roster,
            final(self)@.players == old(self)@.players,
            final(self)@.player_num == old(self)@.player_num,
            final(self)@.round_time == old(self)@.round_time,
            match started {
                Ok(opening) => {
                    &&& HAND_SIZE * old(self)@.player_num < old(self)@.deck.len()
                    &&& final(self)@.deck.len() == old(self)@.deck.len() - HAND_SIZE * old(
                        self,
                    )@.player_num - 1
                    &&& seats(opening.hands@) == old(self)@.roster
                    &&& forall|i: int|
                        0 <= i < opening.hands@.len() ==> (#[trigger] opening.hands@[i]).1@.len()
                            == HAND_SIZE
                    &&& !is_black(opening.flipped_card)
                    &&& opening.flipped_card.text != DRAW_TWO
                    &&& opening.flipped_card.text != DRAW_FOUR
                    &&& opening.first_player < old(self)@.player_num
                },
                Err(fault) => fault == EngineFault::InvariantViolation,
            },
            HAND_SIZE * old(self)@.player_num > old(self)@.deck.len() ==> started is Err,
            HAND_SIZE * old(self)@.player_num <= old(self)@.deck.pile.len() ==> {
                &&& started is Ok <==> old(self)@.player_num <= u32::MAX && has_color(
                    old(self)@.deck.pile.skip(HAND_SIZE * old(self)@.player_num),
                )
                &&& started is Ok ==> opens_from(
                    old(self)@.deck.pile,
                    old(self)@.player_num as int,
                    final(self)@.deck.pile,
                    started->Ok_0,
                ) && final(self)@.deck.discard_pile == old(self)@.deck.discard_pile
            },
    {
        if self.player_num > 4294967295 {
            return Err(EngineFault::InvariantViolation);
        }
        let hands = match self.deck.deal_init_handcards(self.player_num, rng) {
            Ok(hands) => hands,
            Err(fault) => {
                return Err(fault);
            },
        };
        let ghost dealt = hands@;
        let mut given: Vec<(u32, Vec<Card>)> = Vec::new();
        let mut i: usize = 0;
        while i < self.userids.len()
            invariant
                self@.roster == old(self)@.roster,
                self@.roster.len() <= old(self)@.player_num == hands@.len(),
                hands@ == dealt,
                0 <= i <= self.userids.len(),
                given@.len() == i,
                forall|k: int|
                    0 <= k < i ==> (#[trigger] given@[k]).0 == self@.roster[k] && given@[k].1@
                        == dealt[k]@,
            decreases self.userids.len() - i,
        {
            given.push((self.userids[i], hands[i].clone()));
            i = i + 1;
        }
        assert(seats(given@) =~= old(self)@.roster);
        let ghost rest = self@.deck.pile;
        let ghost discarded = self@.deck.discard_pile;
        let ghost left = self@.deck.len();
        let ghost mut turned: int = 0;
        let mut tries = self.deck.pile.len();
        let mut flipped: Option<Card> = None;
        assert(rest =~= rest.skip(0) + rest.take(0));
        while tries > 0 && flipped.is_none()
            invariant
                self@.wf(),
                self@.roster == old(self)@.roster,
                self@.players == old(self)@.players,
                self@.player_num == old(self)@.player_num,
                self@.round_time == old(self)@.round_time,
                self@.deck.discard_pile == discarded,
                left == rest.len() + discarded.len(),
                0 <= turned <= rest.len(),
                forall|k: int| 0 <= k < turned ==> is_black(#[trigger] rest[k]),
                match flipped {
                    Some(card) => {
                        &&& turned < rest.len()
                        &&& card == rest[turned]
                        &&& !is_black(card)
                        &&& self@.deck.pile == rest.skip(turned + 1) + rest.take(turned)
                    },
                    None => {
                        &&& tries == rest.len() - turned
                        &&& self@.deck.pile == rest.skip(turned) + rest.take(turned)
                    },
                },
            decreases tries,
        {
            match self.deck.draw(rng) {
                Ok(card) => {
                    assert(card == rest[turned]);
                    assert(self@.deck.pile =~= rest.skip(turned + 1) + rest.take(turned));
                    if card.color == 4 {
                        self.deck.put_to_bottom(card);
                        assert(self@.deck.pile =~= rest.skip(turned + 1) + rest.take(turned + 1));
                        proof {
                            turned = turned + 1;
                        }
                    } else {
                        flipped = Some(card);
                    }
                },
                Err(_) => {
                    assert(false);
                },
            }
            tries = tries - 1;
        }
        proof {
            lemma_leading_blacks(rest, turned);
            if flipped is None {
                assert(rest.skip(turned) =~= Seq::<Card>::empty());
            } else {
                assert(rest.skip(turned)[0] == rest[turned]);
            }
        }
        let mut flipped_card = match flipped {
            Some(card) => card,
            None => {
                return Err(EngineFault::InvariantViolation);
            },
        };
        if flipped_card.text == 12 || flipped_card.text == 14 {
            flipped_card.text = 15;
        }
        let first_player = below(rng, self.player_num);
        Ok(Opening { hands: given, flipped_card, first_player: first_player as u32 })
    }
}

/// The players whose hands these are.
pub open spec fn seats(hands: Seq<(u32, Vec<Card>)>) -> Seq<u32> {
    Seq::new(hands.len(), |i: int| hands[i].0)
}

/// A card as it lies face up when a game starts: one that would make a
/// player draw has lost its text.
pub open spec fn shown(card: Card) -> Card {
    if card.text == DRAW_TWO || card.text == DRAW_FOUR {
        Card { text: EMPTY, ..card }
    } else {
        card
    }
}

/// Whether a game opens like this from the pile `pile` for `player_num`
/// seats: the cards go to the seats by turns from the top, the first card
/// below the hands that is not black lies face up, and the black cards that
/// were on top of it have gone below what is left, which is `left`.
pub open spec fn opens_from(
    pile: Seq<Card>,
    player_num: int,
    left: Seq<Card>,
    opening: Opening,
) -> bool {
    let rest = pile.skip(HAND_SIZE * player_num);
    let turned = leading_blacks(rest) as int;
    &&& forall|i: int, r: int|
        0 <= i < opening.hands@.len() && 0 <= r < HAND_SIZE ==> #[trigger] opening.hands@[i].1@[r]
            == pile[r * player_num + i]
    &&& opening.flipped_card == shown(rest[turned])
    &&& left == rest.skip(turned + 1) + rest.take(turned)
}

/// The model of the rooms of an engine and of the context of the operation
/// that it is carrying out.
pub struct GlobalView {
    pub rooms: Map<i32, GameView>,
    pub cur_roomid: i32,
    pub cur_userid: i32,
}

impl GlobalView {
    /// Every room is well formed.
    pub open spec fn wf(self) -> bool {
        forall|room: i32| #[trigger] self.rooms.contains_key(room) ==> self.rooms[room].wf()
    }

    /// The user of the operation that is carried out, as the rooms know it.
    pub open spec fn user(self) -> u32 {
        self.cur_userid as u32
    }
}

/// The rooms of an engine, and the context of the operation that it is
/// carrying out.
#[derive(Debug, PartialEq, Eq)]
pub struct GlobalState {
    pub roomid_to_game_state: HashMap<i32, GameState>,
    /// The room of the operation that is carried out; set before each operation.
    pub cur_roomid: i32,
    /// The user of the operation that is carried out; set before each operation.
    pub cur_userid: i32,
}

impl View for GlobalState {
    type V = GlobalView;

    open spec fn view(&self) -> GlobalView {
        GlobalView {
            rooms: self.roomid_to_game_state@.map_values(|game: GameState| game@),
            cur_roomid: self.cur_roomid,
            cur_userid: self.cur_userid,
        }
    }
}

impl GlobalState {
    /// No room, and no operation under way.
    pub fn new() -> (state: GlobalState)
        ensures
            state@.rooms == Map::<i32, GameView>::empty(),
            state@.cur_roomid == -1,
            state@.cur_userid == -1,
            state@.wf(),
    {
        let state = GlobalState {
            roomid_to_game_state: HashMap::new(),
            cur_roomid: -1,
            cur_userid: -1,
        };
        assert(state@.rooms =~= Map::<i32, GameView>::empty());
        state
    }

    /// Opens the room `roomid` for the given users and starts its game.
    /// Refused, with nothing changed, where the room exists already, where
    /// no user is given, and where the game cannot start.
    pub fn new_game(
        &mut self,
        roomid: i32,
        userids: Vec<u32>,
        game_settings: StartGameSettings,
        rng: &mut StdRng,
    ) -> (started: Result<Opening, EngineFault>)
        requires
            old(self)@.wf(),
        ensures
            final(self)@.wf(),
            final(self)@.cur_roomid == old(self)@.cur_roomid,
            final(self)@.cur_userid == old(self)@.cur_userid,
            match started {
                Ok(opening) => {
                    &&& !old(self)@.rooms.contains_key(roomid)
                    &&& userids@.len() > 0
                    &&& HAND_SIZE * userids@.len() < DECK_SIZE
                    &&& final(self)@.rooms.contains_key(roomid)
                    &&& final(self)@.rooms == old(self)@.rooms.insert(
                        roomid,
                        final(self)@.rooms[roomid],
                    )
                    &&& final(self)@.rooms[roomid].roster == distinct(userids@)
                    &&& final(self)@.rooms[roomid].player_num == userids@.len()
                    &&& final(self)@.rooms[roomid].round_time == game_settings.round_time
                    &&& final(self)@.rooms[roomid].deck.len() == DECK_SIZE - HAND_SIZE
                        * userids@.len() - 1
                    &&& forall|user: u32| #[trigger]
                        final(self)@.rooms[roomid].players.contains_key(user) ==> final(self)@.rooms[roomid].players[user].handcards_num == HAND_SIZE
                    &&& final(self)@.rooms[roomid].deck.discard_pile.len() == 0
                    &&& seats(opening.hands@) == distinct(userids@)
                    &&& forall|i: int|
                        0 <= i < opening.hands@.len() ==> (#[trigger] opening.hands@[i]).1@.len()
                            == HAND_SIZE
                    &&& !is_black(opening.flipped_card)
                    &&& opening.flipped_card.text != DRAW_TWO
                    &&& opening.flipped_card.text != DRAW_FOUR
                    &&& opening.first_player < userids@.len()
                    &&& exists|pile: Seq<Card>|
                        pile.to_multiset() == fresh_deck().to_multiset() && #[trigger] opens_from(
                            pile,
                            userids@.len() as int,
                            final(self)@.rooms[roomid].deck.pile,
                            opening,
                        )
                },
                Err(fault) => {
                    &&& final(self)@ == old(self)@
                    &&& fault == if !old(self)@.rooms.contains_key(roomid) && userids@.len()
                        == 0 {
                        EngineFault::IllegalOperation
                    } else {
                        EngineFault::InvariantViolation
                    }
                },
            },
            !old(self)@.rooms.contains_key(roomid) && 0 < userids@.len() && HAND_SIZE
                * userids@.len() + 8 < DECK_SIZE ==> started is Ok,
    {
        broadcast use vstd::std_specs::hash::group_hash_axioms;

        if self.roomid_to_game_state.contains_key(&roomid) {
            return Err(EngineFault::InvariantViolation);
        }
        if userids.len() == 0 {
            return Err(EngineFault::IllegalOperation);
        }
        let mut game = GameState::new(userids, game_settings, rng);
        let ghost pile = game@.deck.pile;
        proof {
            if HAND_SIZE * userids@.len() + 8 < DECK_SIZE {
                let dealt = HAND_SIZE * userids@.len();
                lemma_blacks_shuffled(pile, fresh_deck());
                lemma_blacks_fresh(DECK_SIZE as int);
                assert(fresh_deck().take(DECK_SIZE as int) =~= fresh_deck());
                lemma_blacks_split(pile, dealt as int);
                lemma_blacks_bound(pile.take(dealt as int));
                lemma_has_color(pile.skip(dealt as int));
            }
        }
        let opening = match game.game_start(rng) {
            Ok(opening) => opening,
            Err(fault) => {
                return Err(fault);
            },
        };
        let ghost room = game@;
        self.roomid_to_game_state.insert(roomid, game);
        assert(self@.rooms =~= old(self)@.rooms.insert(roomid, room));
        assert(opens_from(pile, userids@.len() as int, room.deck.pile, opening));
        Ok(opening)
    }
}

} // verus!
