//! The mathematical model of a room: what its state is, which requests it
//! refuses, and what a request that it accepts makes of it.

use crate::fault::EngineFault;
use crate::seqs::occurrences;
use crate::splendor::messages::{
    amount_in, is_ledger, DevelopmentLevelStateView, DevelopmentView, GameStateView, NobleView,
    OperationView, PlayerStateView, ResourceEntry, GOLD, RESOURCE_KINDS,
};
use vstd::prelude::*;

verus! {

/// The number of tiers.
pub const TIERS: usize = 3;

/// The number of face-up cards of a tier whose deck is not exhausted.
pub const WINDOW: usize = 4;

/// The number of cards in a room, all tiers together.
pub const TOTAL_CARDS: usize = 90;

/// The number of nobles in a room.
pub const TOTAL_NOBLES: usize = 5;

/// The highest number of points of a card.
pub const MAX_CARD_POINTS: i32 = 5;

/// The number of points of a noble.
pub const NOBLE_POINTS: i32 = 3;

/// The number of cards of the largest tier.
pub const MAX_TIER_CARDS: usize = 40;

/// The number of cards of a tier.
pub open spec fn tier_total(tier: int) -> int {
    if tier == 0 {
        40
    } else if tier == 1 {
        30
    } else {
        20
    }
}

/// The number of tokens of a kind in a room.
pub open spec fn supply(kind: int) -> int {
    if kind == GOLD {
        5
    } else {
        7
    }
}

/// The ledger in which every one of the resource kinds has the count zero.
pub open spec fn empty_ledger() -> Seq<ResourceEntry> {
    Seq::new(
        RESOURCE_KINDS as nat,
        |i: int| ResourceEntry { resource_type: i as i32, number: 0 },
    )
}

/// The ledger of a board on which nothing has been taken yet.
pub open spec fn full_ledger() -> Seq<ResourceEntry> {
    Seq::new(
        RESOURCE_KINDS as nat,
        |i: int| ResourceEntry { resource_type: i as i32, number: supply(i) as i32 },
    )
}

/// The ledger with one unit more of `kind`.
pub open spec fn ledger_plus_one(ledger: Seq<ResourceEntry>, kind: int) -> Seq<ResourceEntry> {
    ledger.update(
        kind,
        ResourceEntry { resource_type: kind as i32, number: (ledger[kind].number + 1) as i32 },
    )
}

/// The ledger with one unit less of `kind`.
pub open spec fn ledger_minus_one(ledger: Seq<ResourceEntry>, kind: int) -> Seq<ResourceEntry> {
    ledger.update(
        kind,
        ResourceEntry { resource_type: kind as i32, number: (ledger[kind].number - 1) as i32 },
    )
}

/// The ledger after one unit of each of the listed kinds was added.
pub open spec fn ledger_plus_kinds(ledger: Seq<ResourceEntry>, kinds: Seq<i32>) -> Seq<
    ResourceEntry,
> {
    Seq::new(
        ledger.len(),
        |i: int|
            ResourceEntry {
                resource_type: ledger[i].resource_type,
                number: (ledger[i].number + occurrences(kinds, i)) as i32,
            },
    )
}

/// The ledger after one unit of each of the listed kinds was removed.
pub open spec fn ledger_minus_kinds(ledger: Seq<ResourceEntry>, kinds: Seq<i32>) -> Seq<
    ResourceEntry,
> {
    Seq::new(
        ledger.len(),
        |i: int|
            ResourceEntry {
                resource_type: ledger[i].resource_type,
                number: (ledger[i].number - occurrences(kinds, i)) as i32,
            },
    )
}

/// The ledger after the amounts of `delta` were added.
pub open spec fn ledger_plus(ledger: Seq<ResourceEntry>, delta: Seq<ResourceEntry>) -> Seq<
    ResourceEntry,
> {
    Seq::new(
        ledger.len(),
        |i: int|
            ResourceEntry {
                resource_type: ledger[i].resource_type,
                number: (ledger[i].number + amount_in(delta, i)) as i32,
            },
    )
}

/// The ledger after the amounts of `delta` were removed.
pub open spec fn ledger_minus(ledger: Seq<ResourceEntry>, delta: Seq<ResourceEntry>) -> Seq<
    ResourceEntry,
> {
    Seq::new(
        ledger.len(),
        |i: int|
            ResourceEntry {
                resource_type: ledger[i].resource_type,
                number: (ledger[i].number - amount_in(delta, i)) as i32,
            },
    )
}

/// Whether the ledger holds at least the amounts of `price`.
pub open spec fn covers(ledger: Seq<ResourceEntry>, price: Seq<ResourceEntry>) -> bool {
    forall|kind: int|
        0 <= kind < ledger.len() ==> amount_in(price, kind) <= (#[trigger] ledger[kind]).number
}

/// How many of the cards yield `kind`.
pub open spec fn production(cards: Seq<DevelopmentView>, kind: int) -> nat
    decreases cards.len(),
{
    if cards.len() == 0 {
        0
    } else {
        production(cards.drop_last(), kind) + if cards.last().resource_type == kind {
            1nat
        } else {
            0nat
        }
    }
}

/// The production of the cards as a ledger.
pub open spec fn production_ledger(cards: Seq<DevelopmentView>) -> Seq<ResourceEntry> {
    Seq::new(
        RESOURCE_KINDS as nat,
        |i: int| ResourceEntry { resource_type: i as i32, number: production(cards, i) as i32 },
    )
}

/// The points of the cards, added up.
pub open spec fn card_points(cards: Seq<DevelopmentView>) -> int
    decreases cards.len(),
{
    if cards.len() == 0 {
        0
    } else {
        card_points(cards.drop_last()) + cards.last().points
    }
}

/// The points of the nobles, added up.
pub open spec fn noble_points(nobles: Seq<NobleView>) -> int
    decreases nobles.len(),
{
    if nobles.len() == 0 {
        0
    } else {
        noble_points(nobles.drop_last()) + nobles.last().points
    }
}

/// Whether the production of `owned` meets every entry of the noble's capital.
pub open spec fn visits(noble: NobleView, owned: Seq<DevelopmentView>) -> bool {
    forall|i: int|
        0 <= i < noble.capital.len() ==> (#[trigger] noble.capital[i]).number <= production(
            owned,
            noble.capital[i].resource_type as int,
        )
}

/// Whether the ledger holds, for every entry of the capital, at least what
/// the entry asks for.
pub open spec fn meets(ledger: Seq<ResourceEntry>, capital: Seq<ResourceEntry>) -> bool {
    forall|i: int|
        0 <= i < capital.len() ==> (#[trigger] capital[i]).number
            <= ledger[capital[i].resource_type as int].number
}

/// The nobles that visit the owner of `owned`, in their order on the board.
pub open spec fn visiting(nobles: Seq<NobleView>, owned: Seq<DevelopmentView>) -> Seq<NobleView> {
    nobles.filter(|noble: NobleView| visits(noble, owned))
}

/// The nobles that stay on the board, in their order.
pub open spec fn staying(nobles: Seq<NobleView>, owned: Seq<DevelopmentView>) -> Seq<NobleView> {
    nobles.filter(|noble: NobleView| !visits(noble, owned))
}

/// Whether the cards are all well formed.
pub open spec fn cards_wf(cards: Seq<DevelopmentView>) -> bool {
    forall|i: int|
        0 <= i < cards.len() ==> (#[trigger] cards[i]).wf() && cards[i].points <= MAX_CARD_POINTS
}

/// Whether the nobles are all well formed.
pub open spec fn nobles_wf(nobles: Seq<NobleView>) -> bool {
    forall|i: int|
        0 <= i < nobles.len() ==> (#[trigger] nobles[i]).wf() && nobles[i].points <= NOBLE_POINTS
}

/// One tier: its deck, whose top is its last card, and its face-up cards.
pub struct LevelView {
    pub deck: Seq<DevelopmentView>,
    pub cards_on_board: Seq<DevelopmentView>,
}

impl LevelView {
    /// The window never holds more than `WINDOW` cards, and it is full as long
    /// as the deck is not exhausted.
    pub open spec fn wf(self) -> bool {
        &&& cards_wf(self.deck)
        &&& cards_wf(self.cards_on_board)
        &&& self.cards_on_board.len() <= WINDOW
        &&& self.deck.len() > 0 ==> self.cards_on_board.len() == WINDOW
        &&& self.size() <= MAX_TIER_CARDS
    }

    /// The number of cards of the tier that no player has taken.
    pub open spec fn size(self) -> int {
        (self.deck.len() + self.cards_on_board.len()) as int
    }

    /// Whether the window has a card at `index`.
    pub open spec fn has_slot(self, index: int) -> bool {
        0 <= index < self.cards_on_board.len()
    }

    /// The tier after the face-up card at `index` was taken: the top of the
    /// deck takes its place, or, where the deck is exhausted, the window shrinks.
    pub open spec fn after_take(self, index: int) -> LevelView {
        if self.deck.len() == 0 {
            LevelView { deck: self.deck, cards_on_board: self.cards_on_board.remove(index) }
        } else {
            LevelView {
                deck: self.deck.drop_last(),
                cards_on_board: self.cards_on_board.update(index, self.deck.last()),
            }
        }
    }

    /// The tier after the top of its deck was drawn.
    pub open spec fn after_draw(self) -> LevelView {
        LevelView { deck: self.deck.drop_last(), cards_on_board: self.cards_on_board }
    }

    /// What everybody may know of the tier.
    pub open spec fn public(self) -> DevelopmentLevelStateView {
        DevelopmentLevelStateView {
            deck_num: self.deck.len() as i32,
            cards: self.cards_on_board,
        }
    }
}

/// The board: the tiers, the tokens that nobody holds, and the nobles that
/// have visited nobody.
pub struct BoardView {
    pub dev_cards: Seq<LevelView>,
    pub resources_on_board: Seq<ResourceEntry>,
    pub nobles_on_board: Seq<NobleView>,
}

impl BoardView {
    pub open spec fn wf(self) -> bool {
        &&& self.dev_cards.len() == TIERS
        &&& forall|tier: int|
            0 <= tier < TIERS ==> (#[trigger] self.dev_cards[tier]).wf() && self.dev_cards[tier].size()
                <= tier_total(tier)
        &&& is_ledger(self.resources_on_board, RESOURCE_KINDS as int)
        &&& nobles_wf(self.nobles_on_board)
    }

    /// The number of cards on the board, all tiers together.
    pub open spec fn cards(self) -> int {
        self.dev_cards[0].size() + self.dev_cards[1].size() + self.dev_cards[2].size()
    }
}

/// One player: the cards owned and reserved, the tokens held, the nobles
/// that have visited, and the points.
pub struct PlayerView {
    pub dev_cards: Seq<DevelopmentView>,
    pub resource: Seq<ResourceEntry>,
    pub nobles: Seq<NobleView>,
    pub reserved_cards: Seq<DevelopmentView>,
    pub points: i32,
}

impl PlayerView {
    /// The points are those of the owned cards and of the nobles.
    pub open spec fn wf(self) -> bool {
        &&& cards_wf(self.dev_cards)
        &&& cards_wf(self.reserved_cards)
        &&& nobles_wf(self.nobles)
        &&& is_ledger(self.resource, RESOURCE_KINDS as int)
        &&& self.dev_cards.len() + self.reserved_cards.len() <= TOTAL_CARDS
        &&& self.nobles.len() <= TOTAL_NOBLES
        &&& self.points == card_points(self.dev_cards) + noble_points(self.nobles)
    }

    /// A player who has not moved yet.
    pub open spec fn fresh() -> PlayerView {
        PlayerView {
            dev_cards: Seq::empty(),
            resource: empty_ledger(),
            nobles: Seq::empty(),
            reserved_cards: Seq::empty(),
            points: 0,
        }
    }

    /// The number of cards that the player has taken from the board.
    pub open spec fn cards(self) -> int {
        (self.dev_cards.len() + self.reserved_cards.len()) as int
    }

    /// What everybody may know of the player: not which cards are reserved.
    pub open spec fn public(self) -> PlayerStateView {
        PlayerStateView {
            development: production_ledger(self.dev_cards),
            resource: self.resource,
            nobles: self.nobles,
            reserved_num: self.reserved_cards.len() as i32,
            points: self.points,
        }
    }
}

/// What the players of the roster hold of `measure`, added up.
pub open spec fn roster_sum(
    roster: Seq<u32>,
    players: Map<u32, PlayerView>,
    measure: spec_fn(PlayerView) -> int,
) -> int
    decreases roster.len(),
{
    if roster.len() == 0 {
        0
    } else {
        roster_sum(roster.drop_last(), players, measure) + measure(players[roster.last()])
    }
}

/// The tokens of `kind` that a player holds.
pub open spec fn tokens_of(kind: int) -> spec_fn(PlayerView) -> int {
    |player: PlayerView| player.resource[kind].number as int
}

/// The number of cards that a player has taken.
pub open spec fn cards_of() -> spec_fn(PlayerView) -> int {
    |player: PlayerView| player.cards()
}

/// The number of nobles that have visited a player.
pub open spec fn nobles_of() -> spec_fn(PlayerView) -> int {
    |player: PlayerView| player.nobles.len() as int
}

/// One room.
pub struct GameView {
    /// The number of player ids that the room was opened with.
    pub player_num: nat,
    pub round_time: i32,
    pub board: BoardView,
    /// The players in the order in which they were first named.
    pub roster: Seq<u32>,
    pub players: Map<u32, PlayerView>,
}

impl GameView {
    /// The tokens of `kind` in the room: on the board and with the players.
    pub open spec fn tokens_in_room(self, kind: int) -> int {
        self.board.resources_on_board[kind].number + roster_sum(
            self.roster,
            self.players,
            tokens_of(kind),
        )
    }

    /// The cards in the room.
    pub open spec fn cards_in_room(self) -> int {
        self.board.cards() + roster_sum(self.roster, self.players, cards_of())
    }

    /// The nobles in the room.
    pub open spec fn nobles_in_room(self) -> int {
        self.board.nobles_on_board.len() + roster_sum(self.roster, self.players, nobles_of())
    }

    /// The roster names each player once, every part is well formed, and
    /// no token, card or noble has entered or left the room.
    pub open spec fn wf(self) -> bool {
        &&& self.board.wf()
        &&& self.roster.no_duplicates()
        &&& 0 < self.roster.len() <= self.player_num <= i32::MAX
        &&& forall|user: u32| self.players.contains_key(user) <==> self.roster.contains(user)
        &&& forall|user: u32| #[trigger]
            self.players.contains_key(user) ==> self.players[user].wf()
        &&& forall|kind: int|
            0 <= kind < RESOURCE_KINDS ==> #[trigger] self.tokens_in_room(kind) == supply(kind)
        &&& self.cards_in_room() == TOTAL_CARDS
        &&& self.nobles_in_room() == TOTAL_NOBLES
    }

    /// What everybody may know of the room, the players in the order of the roster.
    pub open spec fn public(self) -> GameStateView {
        GameStateView {
            dev_level1: self.board.dev_cards[0].public(),
            dev_level2: self.board.dev_cards[1].public(),
            dev_level3: self.board.dev_cards[2].public(),
            resources_on_board: self.board.resources_on_board,
            nobles_on_board: self.board.nobles_on_board,
            player_states: Seq::new(
                self.roster.len(),
                |i: int| self.players[self.roster[i]].public(),
            ),
        }
    }

    /// The room with another board and another state of one player.
    pub open spec fn with(self, board: BoardView, user: u32, player: PlayerView) -> GameView {
        GameView { board, players: self.players.insert(user, player), ..self }
    }

    /// Why the room refuses to hand `user` one token of each of `kinds`, if it does.
    pub open spec fn take_fault(self, user: u32, kinds: Seq<i32>) -> Option<EngineFault> {
        if !self.players.contains_key(user) {
            Some(EngineFault::NotFound)
        } else if exists|i: int| 0 <= i < kinds.len() && !(0 <= #[trigger] kinds[i] < RESOURCE_KINDS) {
            Some(EngineFault::IllegalOperation)
        } else if exists|kind: int|
            0 <= kind < RESOURCE_KINDS && #[trigger] occurrences(kinds, kind)
                > self.board.resources_on_board[kind].number {
            Some(EngineFault::InvariantViolation)
        } else {
            None
        }
    }

    /// The room after `user` took one token of each of `kinds` from the board.
    pub open spec fn after_take(self, user: u32, kinds: Seq<i32>) -> GameView {
        let player = self.players[user];
        self.with(
            BoardView {
                resources_on_board: ledger_minus_kinds(self.board.resources_on_board, kinds),
                ..self.board
            },
            user,
            PlayerView { resource: ledger_plus_kinds(player.resource, kinds), ..player },
        )
    }

    /// The card that a purchase is about, if it exists: a face-up card of a
    /// tier, or, for a negative `level`, a card that `user` has reserved.
    pub open spec fn purchase_card(self, user: u32, level: int, index: int) -> Option<
        DevelopmentView,
    > {
        if level >= 0 {
            if level < TIERS && self.board.dev_cards[level].has_slot(index) {
                Some(self.board.dev_cards[level].cards_on_board[index])
            } else {
                None
            }
        } else {
            if 0 <= index < self.players[user].reserved_cards.len() {
                Some(self.players[user].reserved_cards[index])
            } else {
                None
            }
        }
    }

    /// Why the room refuses the purchase, if it does.
    pub open spec fn purchase_fault(self, user: u32, level: int, index: int) -> Option<
        EngineFault,
    > {
        if !self.players.contains_key(user) {
            Some(EngineFault::NotFound)
        } else {
            match self.purchase_card(user, level, index) {
                None => Some(EngineFault::NotFound),
                Some(card) => if covers(self.players[user].resource, card.price) {
                    None
                } else {
                    Some(EngineFault::InvariantViolation)
                },
            }
        }
    }

    /// The room after the purchase: the buyer owns the card and has paid its
    /// price to the board, and every noble whose capital the buyer's
    /// production now meets has left the board for the buyer.
    pub open spec fn after_purchase(self, user: u32, level: int, index: int) -> GameView {
        let card = self.purchase_card(user, level, index)->0;
        let player = self.players[user];
        let owned = player.dev_cards.push(card);
        let guests = visiting(self.board.nobles_on_board, owned);
        self.with(
            BoardView {
                dev_cards: if level >= 0 {
                    self.board.dev_cards.update(level, self.board.dev_cards[level].after_take(index))
                } else {
                    self.board.dev_cards
                },
                resources_on_board: ledger_plus(self.board.resources_on_board, card.price),
                nobles_on_board: staying(self.board.nobles_on_board, owned),
            },
            user,
            PlayerView {
                dev_cards: owned,
                resource: ledger_minus(player.resource, card.price),
                nobles: player.nobles + guests.reverse(),
                reserved_cards: if level >= 0 {
                    player.reserved_cards
                } else {
                    player.reserved_cards.remove(index)
                },
                points: (player.points + card.points + noble_points(guests)) as i32,
            },
        )
    }

    /// Why the room refuses the reservation, if it does.
    pub open spec fn reserve_fault(self, user: u32, level: int, index: int) -> Option<
        EngineFault,
    > {
        if !self.players.contains_key(user) {
            Some(EngineFault::NotFound)
        } else if !(0 <= level < TIERS) {
            Some(EngineFault::NotFound)
        } else if index >= 0 {
            if self.board.dev_cards[level].has_slot(index) {
                None
            } else {
                Some(EngineFault::NotFound)
            }
        } else {
            if self.board.dev_cards[level].deck.len() > 0 {
                None
            } else {
                Some(EngineFault::IllegalOperation)
            }
        }
    }

    /// The card that a reservation hands to the player: the face-up card at
    /// `index`, or, for a negative `index`, the top of the deck.
    pub open spec fn reserve_card(self, level: int, index: int) -> DevelopmentView {
        if index >= 0 {
            self.board.dev_cards[level].cards_on_board[index]
        } else {
            self.board.dev_cards[level].deck.last()
        }
    }

    /// Whether a reservation earns the bonus: the board has a premium token left.
    pub open spec fn has_bonus(self) -> bool {
        self.board.resources_on_board[GOLD as int].number > 0
    }

    /// The room after the reservation: the card has moved to the player's
    /// reserved cards, and so has one premium token if the board had one.
    pub open spec fn after_reserve(self, user: u32, level: int, index: int) -> GameView {
        let player = self.players[user];
        let tier = self.board.dev_cards[level];
        self.with(
            BoardView {
                dev_cards: self.board.dev_cards.update(
                    level,
                    if index >= 0 {
                        tier.after_take(index)
                    } else {
                        tier.after_draw()
                    },
                ),
                resources_on_board: if self.has_bonus() {
                    ledger_minus_one(self.board.resources_on_board, GOLD as int)
                } else {
                    self.board.resources_on_board
                },
                ..self.board
            },
            user,
            PlayerView {
                reserved_cards: player.reserved_cards.push(self.reserve_card(level, index)),
                resource: if self.has_bonus() {
                    ledger_plus_one(player.resource, GOLD as int)
                } else {
                    player.resource
                },
                ..player
            },
        )
    }

    /// Why the room refuses the request of `user`, if it does.
    pub open spec fn fault(self, user: u32, request: OperationView) -> Option<EngineFault> {
        match request {
            OperationView::Take(kinds) => self.take_fault(user, kinds),
            OperationView::Purchase(purchase) => self.purchase_fault(
                user,
                purchase.development_level as int,
                purchase.index as int,
            ),
            OperationView::Reserve(reserve) => self.reserve_fault(
                user,
                reserve.development_level as int,
                reserve.index as int,
            ),
        }
    }

    /// The room after the request of `user`; a request that the room refuses
    /// leaves it as it is.
    pub open spec fn after(self, user: u32, request: OperationView) -> GameView {
        if self.fault(user, request) is Some {
            self
        } else {
            match request {
                OperationView::Take(kinds) => self.after_take(user, kinds),
                OperationView::Purchase(purchase) => self.after_purchase(
                    user,
                    purchase.development_level as int,
                    purchase.index as int,
                ),
                OperationView::Reserve(reserve) => self.after_reserve(
                    user,
                    reserve.development_level as int,
                    reserve.index as int,
                ),
            }
        }
    }
}

/// The ids of `ids` in the order in which they are first named, each once.
pub open spec fn distinct(ids: Seq<u32>) -> Seq<u32>
    decreases ids.len(),
{
    if ids.len() == 0 {
        ids
    } else {
        let before = distinct(ids.drop_last());
        if before.contains(ids.last()) {
            before
        } else {
            before.push(ids.last())
        }
    }
}

/// Players that measure the same add up to the same.
pub proof fn lemma_roster_sum_same(
    roster: Seq<u32>,
    a: Map<u32, PlayerView>,
    b: Map<u32, PlayerView>,
    measure: spec_fn(PlayerView) -> int,
)
    requires
        forall|i: int|
            0 <= i < roster.len() ==> measure(a[#[trigger] roster[i]]) == measure(b[roster[i]]),
    ensures
        roster_sum(roster, a, measure) == roster_sum(roster, b, measure),
    decreases roster.len(),
{
    if roster.len() > 0 {
        let rest = roster.drop_last();
        assert forall|i: int| 0 <= i < rest.len() implies measure(a[#[trigger] rest[i]])
            == measure(b[rest[i]]) by {
            assert(rest[i] == roster[i]);
        }
        lemma_roster_sum_same(rest, a, b, measure);
        assert(roster.last() == roster[roster.len() - 1]);
    }
}

/// Where one player of the roster changes, the sum changes by what that
/// player's measure changes.
pub proof fn lemma_roster_sum_update(
    roster: Seq<u32>,
    players: Map<u32, PlayerView>,
    user: u32,
    player: PlayerView,
    measure: spec_fn(PlayerView) -> int,
)
    requires
        roster.no_duplicates(),
        roster.contains(user),
    ensures
        roster_sum(roster, players.insert(user, player), measure) == roster_sum(
            roster,
            players,
            measure,
        ) - measure(players[user]) + measure(player),
    decreases roster.len(),
{
    let rest = roster.drop_last();
    let after = players.insert(user, player);
    if roster.last() == user {
        assert forall|i: int| 0 <= i < rest.len() implies measure(after[#[trigger] rest[i]])
            == measure(players[rest[i]]) by {
            assert(rest[i] == roster[i]);
            assert(roster[i] != roster[roster.len() - 1]);
        }
        lemma_roster_sum_same(rest, after, players, measure);
    } else {
        let at = choose|i: int| 0 <= i < roster.len() && roster[i] == user;
        assert(rest[at] == user);
        assert(rest.no_duplicates()) by {
            assert forall|i: int, j: int| 0 <= i < rest.len() && 0 <= j < rest.len() && i
                != j implies rest[i] != rest[j] by {
                assert(rest[i] == roster[i]);
                assert(rest[j] == roster[j]);
            }
        }
        lemma_roster_sum_update(rest, players, user, player, measure);
    }
}

/// Where no player measures less than zero, no player measures more than the sum.
pub proof fn lemma_roster_sum_bound(
    roster: Seq<u32>,
    players: Map<u32, PlayerView>,
    user: u32,
    measure: spec_fn(PlayerView) -> int,
)
    requires
        roster.contains(user),
        forall|i: int| 0 <= i < roster.len() ==> measure(players[#[trigger] roster[i]]) >= 0,
    ensures
        0 <= measure(players[user]) <= roster_sum(roster, players, measure),
    decreases roster.len(),
{
    let rest = roster.drop_last();
    assert forall|i: int| 0 <= i < rest.len() implies measure(players[#[trigger] rest[i]])
        >= 0 by {
        assert(rest[i] == roster[i]);
    }
    lemma_roster_sum_nonnegative(rest, players, measure);
    assert(roster.last() == roster[roster.len() - 1]);
    if roster.last() != user {
        let at = choose|i: int| 0 <= i < roster.len() && roster[i] == user;
        assert(rest[at] == user);
        lemma_roster_sum_bound(rest, players, user, measure);
    }
}

/// Where no player measures less than zero, the sum is not less than zero.
pub proof fn lemma_roster_sum_nonnegative(
    roster: Seq<u32>,
    players: Map<u32, PlayerView>,
    measure: spec_fn(PlayerView) -> int,
)
    requires
        forall|i: int| 0 <= i < roster.len() ==> measure(players[#[trigger] roster[i]]) >= 0,
    ensures
        roster_sum(roster, players, measure) >= 0,
    decreases roster.len(),
{
    if roster.len() > 0 {
        let rest = roster.drop_last();
        assert forall|i: int| 0 <= i < rest.len() implies measure(players[#[trigger] rest[i]])
            >= 0 by {
            assert(rest[i] == roster[i]);
        }
        lemma_roster_sum_nonnegative(rest, players, measure);
        assert(roster.last() == roster[roster.len() - 1]);
    }
}

/// Where every player measures zero, so does the roster.
pub proof fn lemma_roster_sum_zero(
    roster: Seq<u32>,
    players: Map<u32, PlayerView>,
    measure: spec_fn(PlayerView) -> int,
)
    requires
        forall|i: int| 0 <= i < roster.len() ==> measure(players[#[trigger] roster[i]]) == 0,
    ensures
        roster_sum(roster, players, measure) == 0,
    decreases roster.len(),
{
    if roster.len() > 0 {
        let rest = roster.drop_last();
        assert forall|i: int| 0 <= i < rest.len() implies measure(players[#[trigger] rest[i]])
            == 0 by {
            assert(rest[i] == roster[i]);
        }
        lemma_roster_sum_zero(rest, players, measure);
        assert(roster.last() == roster[roster.len() - 1]);
    }
}

} // verus!
