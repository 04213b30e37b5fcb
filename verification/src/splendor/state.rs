//! The state of the rooms and the elementary moves on it.

use crate::fault::EngineFault;
use crate::seqs::views;
use crate::splendor::messages;
use crate::splendor::messages::{
    clone_developments, clone_nobles, is_ledger, is_requirement, lemma_requirement_amount, amount_in, Development, DevelopmentLevelState, Noble,
    ResourceEntry, ResourceMap, StartGameSettings, GEM_KINDS, RESOURCE_KINDS,
};
use crate::random::below;
use crate::splendor::messages::GameStart;
use crate::splendor::model::{
    cards_of, covers, distinct, empty_ledger, ledger_minus, ledger_minus_one, ledger_plus,
    ledger_plus_one, lemma_roster_sum_zero, nobles_of, production, production_ledger,
    cards_wf, tokens_of, BoardView, GameView, LevelView, PlayerView, TOTAL_CARDS,
};
use crate::splendor::setup::is_fresh_board;
use rand::rngs::StdRng;
use std::collections::HashMap;
use vstd::prelude::*;

verus! {

/// The ledger in which every resource kind has the count zero.
pub fn get_default_resource_map() -> (map: ResourceMap)
    ensures
        map@ == empty_ledger(),
{
    let mut entries: Vec<ResourceEntry> = Vec::new();
    let mut kind: i32 = 0;
    while kind < 6
        invariant
            0 <= kind <= 6,
            entries@.len() == kind,
            forall|i: int|
                0 <= i < kind ==> entries@[i] == (ResourceEntry {
                    resource_type: i as i32,
                    number: 0,
                }),
        decreases 6 - kind,
    {
        entries.push(ResourceEntry { resource_type: kind, number: 0 });
        kind = kind + 1;
    }
    assert(entries@ =~= empty_ledger());
    ResourceMap { entries }
}

impl ResourceMap {
    /// Removes one unit of `kind` from a ledger, unless it has none.
    pub fn take_one(&mut self, kind: i32) -> (done: Result<(), EngineFault>)
        requires
            is_ledger(old(self)@, RESOURCE_KINDS as int),
        ensures
            match done {
                Ok(_) => {
                    &&& 0 <= kind < RESOURCE_KINDS
                    &&& old(self)@[kind as int].number > 0
                    &&& final(self)@ == ledger_minus_one(old(self)@, kind as int)
                },
                Err(fault) => {
                    &&& final(self)@ == old(self)@
                    &&& fault == if 0 <= kind < RESOURCE_KINDS {
                        EngineFault::InvariantViolation
                    } else {
                        EngineFault::IllegalOperation
                    }
                    &&& 0 <= kind < RESOURCE_KINDS ==> old(self)@[kind as int].number == 0
                },
            },
            is_ledger(final(self)@, RESOURCE_KINDS as int),
    {
        if kind < 0 || kind >= 6 {
            return Err(EngineFault::IllegalOperation);
        }
        let slot = kind as usize;
        let entry = self.entries[slot];
        if entry.number <= 0 {
            return Err(EngineFault::InvariantViolation);
        }
        self.entries[slot] = ResourceEntry { resource_type: kind, number: entry.number - 1 };
        Ok(())
    }

    /// Adds one unit of `kind` to a ledger.
    pub fn put_one(&mut self, kind: i32)
        requires
            is_ledger(old(self)@, RESOURCE_KINDS as int),
            0 <= kind < RESOURCE_KINDS,
            old(self)@[kind as int].number < i32::MAX,
        ensures
            final(self)@ == ledger_plus_one(old(self)@, kind as int),
            is_ledger(final(self)@, RESOURCE_KINDS as int),
    {
        let slot = kind as usize;
        let entry = self.entries[slot];
        self.entries[slot] = ResourceEntry { resource_type: kind, number: entry.number + 1 };
    }

    /// Whether this ledger holds at least the amounts of `price`.
    pub fn covers(&self, price: &ResourceMap) -> (enough: bool)
        requires
            is_ledger(self@, RESOURCE_KINDS as int),
            is_requirement(price@),
        ensures
            enough == covers(self@, price@),
    {
        let mut i: usize = 0;
        while i < price.entries.len()
            invariant
                is_ledger(self@, RESOURCE_KINDS as int),
                is_requirement(price@),
                0 <= i <= price.entries.len(),
                forall|k: int|
                    0 <= k < i ==> (#[trigger] price@[k]).number
                        <= self@[price@[k].resource_type as int].number,
            decreases price.entries.len() - i,
        {
            let entry = price.entries[i];
            if entry.number > self.entries[entry.resource_type as usize].number {
                proof {
                    lemma_requirement_amount(price@, i as int);
                }
                return false;
            }
            i = i + 1;
        }
        proof {
            assert forall|kind: int| 0 <= kind < self@.len() implies amount_in(price@, kind) <= (
            #[trigger] self@[kind]).number by {
                lemma_amount_bound(price@, kind, self@[kind].number as int);
            }
        }
        true
    }

    /// Adds the amounts of `delta` to a ledger.
    pub fn credit(&mut self, delta: &ResourceMap)
        requires
            is_ledger(old(self)@, RESOURCE_KINDS as int),
            is_requirement(delta@),
            forall|kind: int|
                0 <= kind < RESOURCE_KINDS ==> (#[trigger] old(self)@[kind]).number + amount_in(
                    delta@,
                    kind,
                ) <= i32::MAX,
        ensures
            final(self)@ == ledger_plus(old(self)@, delta@),
            is_ledger(final(self)@, RESOURCE_KINDS as int),
    {
        let mut i: usize = 0;
        while i < delta.entries.len()
            invariant
                is_ledger(old(self)@, RESOURCE_KINDS as int),
                is_requirement(delta@),
                forall|kind: int|
                    0 <= kind < RESOURCE_KINDS ==> (#[trigger] old(self)@[kind]).number
                        + amount_in(delta@, kind) <= i32::MAX,
                0 <= i <= delta.entries.len(),
                self@ == ledger_plus(old(self)@, delta@.take(i as int)),
            decreases delta.entries.len() - i,
        {
            let entry = delta.entries[i];
            let slot = entry.resource_type as usize;
            let before = self.entries[slot];
            proof {
                let kind = entry.resource_type as int;
                assert(delta@.take(i + 1).drop_last() =~= delta@.take(i as int));
                assert(delta@.take(i + 1).last() == entry);
                lemma_amount_prefix(delta@, i + 1, kind);
                lemma_amount_nonnegative(delta@.take(i as int), kind);
                assert(old(self)@[kind].number + amount_in(delta@, kind) <= i32::MAX);
            }
            self.entries[slot] = ResourceEntry {
                resource_type: before.resource_type,
                number: before.number + entry.number,
            };
            assert(self@ =~= ledger_plus(old(self)@, delta@.take(i + 1)));
            i = i + 1;
        }
        proof {
            assert(delta@.take(i as int) =~= delta@);
            assert forall|k: int| 0 <= k < RESOURCE_KINDS implies (#[trigger] self@[k]).number
                >= 0 by {
                lemma_amount_nonnegative(delta@, k);
            }
        }
    }

    /// Removes the amounts of `delta` from a ledger that covers them.
    pub fn debit(&mut self, delta: &ResourceMap)
        requires
            is_ledger(old(self)@, RESOURCE_KINDS as int),
            is_requirement(delta@),
            covers(old(self)@, delta@),
        ensures
            final(self)@ == ledger_minus(old(self)@, delta@),
            is_ledger(final(self)@, RESOURCE_KINDS as int),
    {
        let mut i: usize = 0;
        while i < delta.entries.len()
            invariant
                is_ledger(old(self)@, RESOURCE_KINDS as int),
                is_requirement(delta@),
                covers(old(self)@, delta@),
                0 <= i <= delta.entries.len(),
                self@ == ledger_minus(old(self)@, delta@.take(i as int)),
            decreases delta.entries.len() - i,
        {
            let entry = delta.entries[i];
            let slot = entry.resource_type as usize;
            let before = self.entries[slot];
            proof {
                let kind = entry.resource_type as int;
                assert(delta@.take(i + 1).drop_last() =~= delta@.take(i as int));
                assert(delta@.take(i + 1).last() == entry);
                lemma_amount_prefix(delta@, i + 1, kind);
                lemma_amount_nonnegative(delta@.take(i as int), kind);
                assert(amount_in(delta@, kind) <= old(self)@[kind].number);
            }
            self.entries[slot] = ResourceEntry {
                resource_type: before.resource_type,
                number: before.number - entry.number,
            };
            assert(self@ =~= ledger_minus(old(self)@, delta@.take(i + 1)));
            i = i + 1;
        }
        proof {
            assert(delta@.take(i as int) =~= delta@);
            assert forall|k: int| 0 <= k < RESOURCE_KINDS implies (#[trigger] self@[k]).number
                >= 0 && self@[k].resource_type == k by {
                assert(amount_in(delta@, k) <= old(self)@[k].number);
                lemma_amount_nonnegative(delta@, k);
            }
        }
    }
}

/// Entries without a negative count hold no negative amount.
pub proof fn lemma_amount_nonnegative(entries: Seq<ResourceEntry>, kind: int)
    requires
        forall|k: int| 0 <= k < entries.len() ==> (#[trigger] entries[k]).number >= 0,
    ensures
        amount_in(entries, kind) >= 0,
    decreases entries.len(),
{
    if entries.len() > 0 {
        let rest = entries.drop_last();
        assert forall|k: int| 0 <= k < rest.len() implies (#[trigger] rest[k]).number >= 0 by {
            assert(rest[k] == entries[k]);
        }
        lemma_amount_nonnegative(rest, kind);
    }
}

/// Of entries without a negative count, a prefix holds no more than the whole.
pub proof fn lemma_amount_prefix(entries: Seq<ResourceEntry>, n: int, kind: int)
    requires
        forall|k: int| 0 <= k < entries.len() ==> (#[trigger] entries[k]).number >= 0,
        0 <= n <= entries.len(),
    ensures
        amount_in(entries.take(n), kind) <= amount_in(entries, kind),
    decreases entries.len() - n,
{
    if n < entries.len() {
        lemma_amount_prefix(entries, n + 1, kind);
        assert(entries.take(n + 1).drop_last() =~= entries.take(n));
        assert(entries.take(n + 1).last() == entries[n]);
    } else {
        assert(entries.take(n) =~= entries);
    }
}

/// A requirement asks of a kind no more than a bound that each of its
/// entries of that kind keeps.
pub proof fn lemma_amount_bound(entries: Seq<ResourceEntry>, kind: int, bound: int)
    requires
        is_requirement(entries),
        bound >= 0,
        forall|k: int|
            0 <= k < entries.len() && (#[trigger] entries[k]).resource_type == kind
                ==> entries[k].number <= bound,
    ensures
        amount_in(entries, kind) <= bound,
    decreases entries.len(),
{
    if entries.len() > 0 {
        let rest = entries.drop_last();
        assert(is_requirement(rest)) by {
            assert forall|k: int| 0 <= k < rest.len() implies 0 <= (
            #[trigger] rest[k]).resource_type < GEM_KINDS && rest[k].number >= 0 by {
                assert(rest[k] == entries[k]);
            }
            assert forall|k: int, j: int| 0 <= k < j < rest.len() implies (
            #[trigger] rest[k]).resource_type != (#[trigger] rest[j]).resource_type by {
                assert(rest[k] == entries[k]);
                assert(rest[j] == entries[j]);
            }
        }
        if entries.last().resource_type == kind {
            assert forall|k: int| 0 <= k < rest.len() implies (#[trigger] rest[k]).resource_type
                != kind by {
                assert(rest[k] == entries[k]);
            }
            messages::lemma_requirement_absent(rest, kind);
        } else {
            assert forall|k: int|
                0 <= k < rest.len() && (#[trigger] rest[k]).resource_type == kind implies rest[k].number
                <= bound by {
                assert(rest[k] == entries[k]);
            }
            lemma_amount_bound(rest, kind, bound);
        }
    }
}

/// One tier of development cards: the deck, whose top is its last card, and
/// the face-up cards.
#[derive(Debug, PartialEq, Eq)]
pub struct DevCardsLevelState {
    pub deck: Vec<Development>,
    pub cards_on_board: Vec<Development>,
}

impl View for DevCardsLevelState {
    type V = LevelView;

    open spec fn view(&self) -> LevelView {
        LevelView { deck: views(self.deck@), cards_on_board: views(self.cards_on_board@) }
    }
}

impl DevCardsLevelState {
    /// What everybody may know of the tier.
    pub fn get_pub_state(&self) -> (public: DevelopmentLevelState)
        requires
            self@.wf(),
        ensures
            public@ == self@.public(),
    {
        DevelopmentLevelState {
            deck_num: self.deck.len() as i32,
            cards: clone_developments(&self.cards_on_board),
        }
    }

    /// Takes the face-up card at `index`. The top of the deck takes its
    /// place; where the deck is exhausted, the window shrinks instead.
    pub fn take(&mut self, index: i32) -> (taken: Result<Development, EngineFault>)
        ensures
            match taken {
                Ok(card) => {
                    &&& old(self)@.has_slot(index as int)
                    &&& card@ == old(self)@.cards_on_board[index as int]
                    &&& final(self)@ == old(self)@.after_take(index as int)
                },
                Err(fault) => {
                    &&& !old(self)@.has_slot(index as int)
                    &&& fault == EngineFault::NotFound
                    &&& final(self)@ == old(self)@
                },
            },
            old(self)@.wf() ==> final(self)@.wf(),
    {
        if index < 0 || index as usize >= self.cards_on_board.len() {
            return Err(EngineFault::NotFound);
        }
        let slot = index as usize;
        if self.deck.len() == 0 {
            let card = self.cards_on_board.remove(slot);
            assert(views(self.cards_on_board@) =~= views(old(self).cards_on_board@).remove(
                index as int,
            ));
            Ok(card)
        } else {
            let mut card = self.deck.pop().unwrap();
            std::mem::swap(&mut self.cards_on_board[slot], &mut card);
            assert(views(self.cards_on_board@) =~= views(old(self).cards_on_board@).update(
                index as int,
                views(old(self).deck@).last(),
            ));
            assert(views(self.deck@) =~= views(old(self).deck@).drop_last());
            Ok(card)
        }
    }

    /// Draws the top of the deck.
    pub fn draw(&mut self) -> (drawn: Result<Development, EngineFault>)
        ensures
            match drawn {
                Ok(card) => {
                    &&& old(self)@.deck.len() > 0
                    &&& card@ == old(self)@.deck.last()
                    &&& final(self)@ == old(self)@.after_draw()
                },
                Err(fault) => {
                    &&& old(self)@.deck.len() == 0
                    &&& fault == EngineFault::IllegalOperation
                    &&& final(self)@ == old(self)@
                },
            },
            old(self)@.wf() ==> final(self)@.wf(),
    {
        match self.deck.pop() {
            Some(card) => {
                assert(views(self.deck@) =~= views(old(self).deck@).drop_last());
                Ok(card)
            },
            None => Err(EngineFault::IllegalOperation),
        }
    }
}

/// The board of a room.
#[derive(Debug, PartialEq, Eq)]
pub struct BoardState {
    /// The tiers, the lowest first.
    pub dev_cards: Vec<DevCardsLevelState>,
    pub resources_on_board: ResourceMap,
    pub nobles_on_board: Vec<Noble>,
}

impl View for BoardState {
    type V = BoardView;

    open spec fn view(&self) -> BoardView {
        BoardView {
            dev_cards: views(self.dev_cards@),
            resources_on_board: self.resources_on_board@,
            nobles_on_board: views(self.nobles_on_board@),
        }
    }
}

impl BoardState {
    /// Takes one token of the given kind from the board, unless none is left.
    pub fn take_resource(&mut self, resource_type: i32) -> (done: Result<(), EngineFault>)
        requires
            is_ledger(old(self)@.resources_on_board, RESOURCE_KINDS as int),
        ensures
            match done {
                Ok(_) => {
                    &&& 0 <= resource_type < RESOURCE_KINDS
                    &&& old(self)@.resources_on_board[resource_type as int].number > 0
                    &&& final(self)@ == (BoardView {
                        resources_on_board: ledger_minus_one(
                            old(self)@.resources_on_board,
                            resource_type as int,
                        ),
                        ..old(self)@
                    })
                },
                Err(fault) => {
                    &&& final(self)@ == old(self)@
                    &&& fault == if 0 <= resource_type < RESOURCE_KINDS {
                        EngineFault::InvariantViolation
                    } else {
                        EngineFault::IllegalOperation
                    }
                    &&& 0 <= resource_type < RESOURCE_KINDS ==> old(self)@.resources_on_board[resource_type as int].number == 0
                },
            },
    {
        self.resources_on_board.take_one(resource_type)
    }

    /// Puts the tokens of `res_map` back on the board.
    pub fn return_resource(&mut self, res_map: &ResourceMap)
        requires
            is_ledger(old(self)@.resources_on_board, RESOURCE_KINDS as int),
            is_requirement(res_map@),
            forall|kind: int|
                0 <= kind < RESOURCE_KINDS ==> (#[trigger] old(self)@.resources_on_board[kind]).number + amount_in(res_map@, kind) <= i32::MAX,
        ensures
            final(self)@ == (BoardView {
                resources_on_board: ledger_plus(old(self)@.resources_on_board, res_map@),
                ..old(self)@
            }),
    {
        self.resources_on_board.credit(res_map);
    }
}

/// How many of the cards yield a kind is at most their number.
pub proof fn lemma_production_bound(cards: Seq<messages::DevelopmentView>, kind: int)
    ensures
        production(cards, kind) <= cards.len(),
    decreases cards.len(),
{
    if cards.len() > 0 {
        lemma_production_bound(cards.drop_last(), kind);
    }
}

/// One player of a room.
#[derive(Debug, PartialEq, Eq)]
pub struct PlayerState {
    pub dev_cards: Vec<Development>,
    pub resource: ResourceMap,
    pub nobles: Vec<Noble>,
    pub reserved_cards: Vec<Development>,
    pub points: i32,
}

impl View for PlayerState {
    type V = PlayerView;

    open spec fn view(&self) -> PlayerView {
        PlayerView {
            dev_cards: views(self.dev_cards@),
            resource: self.resource@,
            nobles: views(self.nobles@),
            reserved_cards: views(self.reserved_cards@),
            points: self.points,
        }
    }
}

impl PlayerState {
    /// A player who has not moved yet.
    pub fn new() -> (player: PlayerState)
        ensures
            player@ == PlayerView::fresh(),
            player@.wf(),
    {
        let player = PlayerState {
            dev_cards: Vec::new(),
            resource: get_default_resource_map(),
            nobles: Vec::new(),
            reserved_cards: Vec::new(),
            points: 0,
        };
        assert(player@.dev_cards =~= Seq::empty());
        assert(player@.nobles =~= Seq::empty());
        assert(player@.reserved_cards =~= Seq::empty());
        player
    }

    /// The production of the player: the owned cards counted by the gem they yield.
    pub fn production(&self) -> (ledger: ResourceMap)
        requires
            cards_wf(self@.dev_cards),
            self@.dev_cards.len() <= TOTAL_CARDS,
        ensures
            ledger@ == production_ledger(self@.dev_cards),
    {
        let mut ledger = get_default_resource_map();
        let mut i: usize = 0;
        while i < self.dev_cards.len()
            invariant
                cards_wf(self@.dev_cards),
                self@.dev_cards.len() <= TOTAL_CARDS,
                0 <= i <= self.dev_cards.len(),
                ledger@ == production_ledger(self@.dev_cards.take(i as int)),
            decreases self.dev_cards.len() - i,
        {
            let kind = self.dev_cards[i].resource_type;
            proof {
                let cards = self@.dev_cards;
                assert(cards[i as int].wf());
                assert(cards.take(i + 1).drop_last() =~= cards.take(i as int));
                assert(cards.take(i + 1).last() == cards[i as int]);
                lemma_production_bound(cards.take(i as int), kind as int);
            }
            let entry = ledger.entries[kind as usize];
            ledger.entries[kind as usize] = ResourceEntry {
                resource_type: entry.resource_type,
                number: entry.number + 1,
            };
            assert(ledger@ =~= production_ledger(self@.dev_cards.take(i + 1)));
            i = i + 1;
        }
        assert(self@.dev_cards.take(i as int) =~= self@.dev_cards);
        ledger
    }

    /// What everybody may know of the player.
    pub fn get_pub_state(&self) -> (public: messages::PlayerState)
        requires
            self@.wf(),
        ensures
            public@ == self@.public(),
    {
        messages::PlayerState {
            development: self.production(),
            resource: self.resource.clone(),
            nobles: clone_nobles(&self.nobles),
            reserved_num: self.reserved_cards.len() as i32,
            points: self.points,
        }
    }

    /// Hands the player one token of the given kind.
    pub fn take_resource(&mut self, resource_type: i32)
        requires
            is_ledger(old(self)@.resource, RESOURCE_KINDS as int),
            0 <= resource_type < RESOURCE_KINDS,
            old(self)@.resource[resource_type as int].number < i32::MAX,
        ensures
            final(self)@ == (PlayerView {
                resource: ledger_plus_one(old(self)@.resource, resource_type as int),
                ..old(self)@
            }),
    {
        self.resource.put_one(resource_type);
    }

    /// Takes the tokens of `res_map` from the player, who holds them.
    pub fn spend_resource(&mut self, res_map: &ResourceMap)
        requires
            is_ledger(old(self)@.resource, RESOURCE_KINDS as int),
            is_requirement(res_map@),
            covers(old(self)@.resource, res_map@),
        ensures
            final(self)@ == (PlayerView {
                resource: ledger_minus(old(self)@.resource, res_map@),
                ..old(self)@
            }),
    {
        self.resource.debit(res_map);
    }
}

/// The models of the players of a room.
pub open spec fn player_views(players: Map<u32, PlayerState>) -> Map<u32, PlayerView> {
    players.map_values(|player: PlayerState| player@)
}

/// One room.
#[derive(Debug, PartialEq, Eq)]
pub struct GameState {
    /// The number of player ids that the room was opened with.
    pub player_num: usize,
    pub game_settings: StartGameSettings,
    pub board_state: BoardState,
    pub userid_to_player_state: HashMap<u32, PlayerState>,
    /// The players in the order in which they were first named. The public
    /// state lists them in this order.
    pub userids: Vec<u32>,
}

impl View for GameState {
    type V = GameView;

    open spec fn view(&self) -> GameView {
        GameView {
            player_num: self.player_num as nat,
            round_time: self.game_settings.round_time,
            board: self.board_state@,
            roster: self.userids@,
            players: player_views(self.userid_to_player_state@),
        }
    }
}

impl GameState {
    /// Opens a room for the given players: a board as it is set up, and
    /// players who have not moved. An id that is named again is the same player.
    pub fn new(userids: Vec<u32>, game_settings: StartGameSettings, rng: &mut StdRng) -> (game:
        GameState)
        requires
            0 < userids@.len() <= i32::MAX,
        ensures
            game@.wf(),
            is_fresh_board(game@.board),
            game@.roster == distinct(userids@),
            game@.player_num == userids@.len(),
            game@.round_time == game_settings.round_time,
            forall|user: u32| #[trigger]
                game@.players.contains_key(user) ==> game@.players[user] == PlayerView::fresh(),
    {
        broadcast use vstd::std_specs::hash::group_hash_axioms;

        let mut userid_to_player_state: HashMap<u32, PlayerState> = HashMap::new();
        let mut roster: Vec<u32> = Vec::new();
        let mut i: usize = 0;
        while i < userids.len()
            invariant
                0 <= i <= userids.len(),
                roster@ == distinct(userids@.take(i as int)),
                roster@.no_duplicates(),
                roster@.len() <= i,
                i > 0 ==> roster@.len() > 0,
                forall|user: u32|
                    userid_to_player_state@.contains_key(user) <==> roster@.contains(user),
                forall|user: u32| #[trigger]
                    userid_to_player_state@.contains_key(user) ==> userid_to_player_state@[user]@
                        == PlayerView::fresh(),
            decreases userids.len() - i,
        {
            let userid = userids[i];
            proof {
                assert(userids@.take(i + 1).drop_last() =~= userids@.take(i as int));
                assert(userids@.take(i + 1).last() == userid);
            }
            if !userid_to_player_state.contains_key(&userid) {
                let ghost before = roster@;
                userid_to_player_state.insert(userid, PlayerState::new());
                roster.push(userid);
                proof {
                    assert(roster@ == before.push(userid));
                    assert(!before.contains(userid));
                    assert forall|a: int, b: int|
                        0 <= a < roster@.len() && 0 <= b < roster@.len() && a
                            != b implies roster@[a] != roster@[b] by {
                        if a < before.len() {
                            assert(before.contains(before[a]));
                        }
                        if b < before.len() {
                            assert(before.contains(before[b]));
                        }
                    }
                    assert forall|user: u32|
                        userid_to_player_state@.contains_key(user) <==> roster@.contains(
                            user,
                        ) by {
                        if user == userid {
                            assert(roster@[before.len() as int] == userid);
                        } else if before.contains(user) {
                            let at = choose|k: int| 0 <= k < before.len() && before[k] == user;
                            assert(roster@[at] == user);
                        } else if roster@.contains(user) {
                            let at = choose|k: int| 0 <= k < roster@.len() && roster@[k] == user;
                            assert(before[at] == user);
                        }
                    }
                }
            }
            i = i + 1;
        }
        assert(userids@.take(i as int) =~= userids@);
        let game = GameState {
            player_num: userids.len(),
            game_settings,
            board_state: BoardState::new(rng),
            userid_to_player_state,
            userids: roster,
        };
        proof {
            let model = game@;
            assert forall|user: u32| #[trigger]
                model.players.contains_key(user) implies model.players[user]
                == PlayerView::fresh() by {
                assert(userid_to_player_state@.contains_key(user));
            }
            assert forall|user: u32| model.players.contains_key(user) <==> model.roster.contains(
                user,
            ) by {
                assert(model.players.contains_key(user) <==> userid_to_player_state@.contains_key(
                    user,
                ));
            }
            assert forall|k: int| 0 <= k < model.roster.len() implies model.players[
            #[trigger] model.roster[k]] == PlayerView::fresh() by {
                assert(model.roster.contains(model.roster[k]));
                assert(model.players.contains_key(model.roster[k]));
            }
            assert forall|kind: int| 0 <= kind < RESOURCE_KINDS implies #[trigger]
                model.tokens_in_room(kind) == crate::splendor::model::supply(kind) by {
                lemma_roster_sum_zero(model.roster, model.players, tokens_of(kind));
            }
            lemma_roster_sum_zero(model.roster, model.players, cards_of());
            lemma_roster_sum_zero(model.roster, model.players, nobles_of());
            assert(model.board.dev_cards[0].size() == 40);
            assert(model.board.dev_cards[1].size() == 30);
            assert(model.board.dev_cards[2].size() == 20);
        }
        game
    }

    /// The notice that opens the game: who moves first, drawn at random from
    /// the seats, and the public state.
    pub fn game_start(&self, rng: &mut StdRng) -> (start: GameStart)
        requires
            self@.wf(),
        ensures
            0 <= start@.first_player < self@.player_num,
            start@.state == self@.public(),
    {
        let first_player = below(rng, self.player_num);
        GameStart { first_player: first_player as i32, state: self.get_pub_state() }
    }

    /// What everybody may know of the room. The players come in the order
    /// of the roster.
    pub fn get_pub_state(&self) -> (public: messages::GameState)
        requires
            self@.wf(),
        ensures
            public@ == self@.public(),
    {
        broadcast use vstd::std_specs::hash::group_hash_axioms;

        let mut player_states: Vec<messages::PlayerState> = Vec::new();
        let mut i: usize = 0;
        while i < self.userids.len()
            invariant
                self@.wf(),
                0 <= i <= self.userids.len(),
                player_states@.len() == i,
                forall|k: int|
                    0 <= k < i ==> #[trigger] views(player_states@)[k]
                        == self@.players[self@.roster[k]].public(),
            decreases self.userids.len() - i,
        {
            let userid = self.userids[i];
            assert(self@.roster.contains(userid));
            assert(self@.players.contains_key(userid));
            let player = self.userid_to_player_state.get(&userid).unwrap();
            assert(player@ == self@.players[userid]);
            let ghost before = views(player_states@);
            let public = player.get_pub_state();
            player_states.push(public);
            assert(views(player_states@) =~= before.push(public@));
            i = i + 1;
        }
        assert(self@.board.dev_cards[0].wf());
        assert(self@.board.dev_cards[1].wf());
        assert(self@.board.dev_cards[2].wf());
        let public = messages::GameState {
            dev_level1: self.board_state.dev_cards[0].get_pub_state(),
            dev_level2: self.board_state.dev_cards[1].get_pub_state(),
            dev_level3: self.board_state.dev_cards[2].get_pub_state(),
            resources_on_board: self.board_state.resources_on_board.clone(),
            nobles_on_board: clone_nobles(&self.board_state.nobles_on_board),
            player_states,
        };
        assert(public@.player_states =~= self@.public().player_states);
        public
    }
}

/// A room as it is opened for `userids`: the board as it is set up, the
/// players without cards or tokens.
pub open spec fn is_new_room(game: GameView, userids: Seq<u32>, round_time: i32) -> bool {
    &&& game.wf()
    &&& is_fresh_board(game.board)
    &&& game.roster == distinct(userids)
    &&& game.player_num == userids.len()
    &&& game.round_time == round_time
    &&& forall|user: u32| #[trigger]
        game.players.contains_key(user) ==> game.players[user] == PlayerView::fresh()
}

/// The model of the rooms of an engine and of the context of the operation
/// that it is carrying out.
pub struct GlobalView {
    pub rooms: Map<i32, GameView>,
    /// The room of the operation that is carried out.
    pub cur_roomid: i32,
    /// The user of the operation that is carried out.
    pub cur_userid: i32,
}

impl GlobalView {
    /// Every room is well formed.
    pub open spec fn wf(self) -> bool {
        forall|room: i32| #[trigger] self.rooms.contains_key(room) ==> self.rooms[room].wf()
    }

    /// The user of the operation that is carried out, as the rooms know it.
    pub open spec fn user(self) -> u32 {
        self.cur_userid as u32
    }

    /// Why no room with this id can be opened for these users, if none can:
    /// the room exists, or there is no user, or there are more than can be counted.
    pub open spec fn new_game_fault(self, roomid: i32, userids: Seq<u32>) -> Option<EngineFault> {
        if self.rooms.contains_key(roomid) {
            Some(EngineFault::InvariantViolation)
        } else if userids.len() == 0 || userids.len() > i32::MAX {
            Some(EngineFault::IllegalOperation)
        } else {
            None
        }
    }
}

/// The rooms of an engine, and the context of the operation that it is
/// carrying out.
#[derive(Debug, PartialEq, Eq)]
pub struct GlobalState {
    pub roomid_to_game_state: HashMap<i32, GameState>,
    /// The room of the operation that is carried out; set before each operation.
    pub cur_roomid: i32,
    /// The user of the operation that is carried out; set before each operation.
    pub cur_userid: i32,
}

impl View for GlobalState {
    type V = GlobalView;

    open spec fn view(&self) -> GlobalView {
        GlobalView {
            rooms: self.roomid_to_game_state@.map_values(|game: GameState| game@),
            cur_roomid: self.cur_roomid,
            cur_userid: self.cur_userid,
        }
    }
}

impl GlobalState {
    /// No room, and no operation under way.
    pub fn new() -> (state: GlobalState)
        ensures
            state@.rooms == Map::<i32, GameView>::empty(),
            state@.cur_roomid == -1,
            state@.cur_userid == -1,
            state@.wf(),
    {
        let state = GlobalState {
            roomid_to_game_state: HashMap::new(),
            cur_roomid: -1,
            cur_userid: -1,
        };
        assert(state@.rooms =~= Map::<i32, GameView>::empty());
        state
    }

    /// Opens the room `roomid` for the given users and returns the notice
    /// that opens the game. Refused where the room exists already, and where
    /// no user is given or more than can be counted.
    pub fn new_game(
        &mut self,
        roomid: i32,
        userids: Vec<u32>,
        game_settings: StartGameSettings,
        rng: &mut StdRng,
    ) -> (started: Result<GameStart, EngineFault>)
        requires
            old(self)@.wf(),
        ensures
            final(self)@.wf(),
            final(self)@.cur_roomid == old(self)@.cur_roomid,
            final(self)@.cur_userid == old(self)@.cur_userid,
            match started {
                Ok(start) => {
                    &&& old(self)@.new_game_fault(roomid, userids@) is None
                    &&& final(self)@.rooms.contains_key(roomid)
                    &&& final(self)@.rooms == old(self)@.rooms.insert(
                        roomid,
                        final(self)@.rooms[roomid],
                    )
                    &&& is_new_room(
                        final(self)@.rooms[roomid],
                        userids@,
                        game_settings.round_time,
                    )
                    &&& 0 <= start@.first_player < userids@.len()
                    &&& start@.state == final(self)@.rooms[roomid].public()
                },
                Err(fault) => {
                    &&& old(self)@.new_game_fault(roomid, userids@) == Some(fault)
                    &&& final(self)@ == old(self)@
                },
            },
    {
        broadcast use vstd::std_specs::hash::group_hash_axioms;

        if self.roomid_to_game_state.contains_key(&roomid) {
            return Err(EngineFault::InvariantViolation);
        }
        if userids.len() == 0 || userids.len() > 2147483647 {
            return Err(EngineFault::IllegalOperation);
        }
        let ghost ids = userids@;
        let game = GameState::new(userids, game_settings, rng);
        let start = game.game_start(rng);
        let ghost room = game@;
        self.roomid_to_game_state.insert(roomid, game);
        assert(self@.rooms =~= old(self)@.rooms.insert(roomid, room));
        Ok(start)
    }
}

} // verus!
