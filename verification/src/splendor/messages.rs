use crate::seqs::views;
use vstd::prelude::*;

verus! {

/// The number of gem kinds. Their codes are `0..GEM_KINDS`.
pub const GEM_KINDS: i32 = 5;

/// The code of the premium resource, which is a reservation bonus and never
/// part of a price.
pub const GOLD: i32 = 5;

/// The number of resource kinds: the gems and the premium resource.
pub const RESOURCE_KINDS: usize = 6;

/// The kinds of resource, in the order of their codes.
#[derive(Clone, Copy, Debug, PartialEq, Eq, Structural)]
pub enum ResourceType {
    Agate,
    Emerald,
    Diamond,
    Ruby,
    Sapphire,
    Gold,
}

impl ResourceType {
    /// The code that stands for this kind in messages and in resource maps.
    pub open spec fn spec_code(self) -> i32 {
        match self {
            ResourceType::Agate => 0,
            ResourceType::Emerald => 1,
            ResourceType::Diamond => 2,
            ResourceType::Ruby => 3,
            ResourceType::Sapphire => 4,
            ResourceType::Gold => 5,
        }
    }

    #[verifier::when_used_as_spec(spec_code)]
    pub fn code(self) -> (code: i32)
        ensures
            code == self.spec_code(),
            0 <= code < RESOURCE_KINDS,
    {
        match self {
            ResourceType::Agate => 0,
            ResourceType::Emerald => 1,
            ResourceType::Diamond => 2,
            ResourceType::Ruby => 3,
            ResourceType::Sapphire => 4,
            ResourceType::Gold => 5,
        }
    }

    /// The kind with the given code, if there is one.
    pub fn from_code(code: i32) -> (kind: Option<ResourceType>)
        ensures
            match kind {
                Some(k) => k.spec_code() == code,
                None => !(0 <= code < RESOURCE_KINDS),
            },
    {
        if code == 0 {
            Some(ResourceType::Agate)
        } else if code == 1 {
            Some(ResourceType::Emerald)
        } else if code == 2 {
            Some(ResourceType::Diamond)
        } else if code == 3 {
            Some(ResourceType::Ruby)
        } else if code == 4 {
            Some(ResourceType::Sapphire)
        } else if code == 5 {
            Some(ResourceType::Gold)
        } else {
            None
        }
    }
}

/// A number of units of one kind of resource.
#[derive(Clone, Copy, Debug, PartialEq, Eq, Structural)]
pub struct ResourceEntry {
    pub resource_type: i32,
    pub number: i32,
}

/// The units that `entries` holds of `kind`, all entries of that kind taken together.
pub open spec fn amount_in(entries: Seq<ResourceEntry>, kind: int) -> int
    decreases entries.len(),
{
    if entries.len() == 0 {
        0
    } else {
        amount_in(entries.drop_last(), kind) + if entries.last().resource_type == kind {
            entries.last().number as int
        } else {
            0
        }
    }
}

/// A ledger has one entry for each of the `kinds` first resource kinds, in
/// the order of their codes, and no negative count.
pub open spec fn is_ledger(entries: Seq<ResourceEntry>, kinds: int) -> bool {
    &&& entries.len() == kinds
    &&& forall|i: int|
        0 <= i < kinds ==> (#[trigger] entries[i]).resource_type == i && entries[i].number >= 0
}

/// A requirement names gem kinds only, each at most once, with no negative count.
pub open spec fn is_requirement(entries: Seq<ResourceEntry>) -> bool {
    &&& forall|i: int|
        0 <= i < entries.len() ==> 0 <= (#[trigger] entries[i]).resource_type < GEM_KINDS
            && entries[i].number >= 0
    &&& forall|i: int, j: int|
        0 <= i < j < entries.len() ==> (#[trigger] entries[i]).resource_type != (
        #[trigger] entries[j]).resource_type
}

/// A requirement asks of a kind what its one entry of that kind says.
pub proof fn lemma_requirement_amount(entries: Seq<ResourceEntry>, i: int)
    requires
        is_requirement(entries),
        0 <= i < entries.len(),
    ensures
        amount_in(entries, entries[i].resource_type as int) == entries[i].number,
    decreases entries.len(),
{
    let kind = entries[i].resource_type as int;
    let rest = entries.drop_last();
    assert(is_requirement(rest)) by {
        assert forall|k: int| 0 <= k < rest.len() implies 0 <= (#[trigger] rest[k]).resource_type
            < GEM_KINDS && rest[k].number >= 0 by {
            assert(rest[k] == entries[k]);
        }
        assert forall|k: int, j: int| 0 <= k < j < rest.len() implies (
        #[trigger] rest[k]).resource_type != (#[trigger] rest[j]).resource_type by {
            assert(rest[k] == entries[k]);
            assert(rest[j] == entries[j]);
        }
    }
    if i == entries.len() - 1 {
        lemma_requirement_absent(rest, kind);
    } else {
        assert(rest[i] == entries[i]);
        lemma_requirement_amount(rest, i);
    }
}

/// Entries ask nothing of a kind that none of them names.
pub proof fn lemma_requirement_absent(entries: Seq<ResourceEntry>, kind: int)
    requires
        forall|k: int| 0 <= k < entries.len() ==> (#[trigger] entries[k]).resource_type != kind,
    ensures
        amount_in(entries, kind) == 0,
    decreases entries.len(),
{
    if entries.len() > 0 {
        let rest = entries.drop_last();
        assert forall|k: int| 0 <= k < rest.len() implies (#[trigger] rest[k]).resource_type
            != kind by {
            assert(rest[k] == entries[k]);
        }
        lemma_requirement_absent(rest, kind);
    }
}

/// Counts of resources by kind.
#[derive(Debug, PartialEq, Eq)]
pub struct ResourceMap {
    pub entries: Vec<ResourceEntry>,
}

impl View for ResourceMap {
    type V = Seq<ResourceEntry>;

    open spec fn view(&self) -> Seq<ResourceEntry> {
        self.entries@
    }
}

impl Clone for ResourceMap {
    fn clone(&self) -> (copy: Self)
        ensures
            copy@ == self@,
    {
        let entries = self.entries.clone();
        assert(entries@ =~= self.entries@);
        ResourceMap { entries }
    }
}

/// A development card: what it costs, the gem that it yields, and its points.
#[derive(Debug, PartialEq, Eq)]
pub struct Development {
    pub price: ResourceMap,
    pub resource_type: i32,
    pub points: i32,
}

/// The model of a development card.
pub struct DevelopmentView {
    pub price: Seq<ResourceEntry>,
    pub resource_type: i32,
    pub points: i32,
}

impl DevelopmentView {
    /// A card costs gems only, yields a gem, and has no negative points.
    pub open spec fn wf(self) -> bool {
        &&& is_requirement(self.price)
        &&& 0 <= self.resource_type < GEM_KINDS
        &&& self.points >= 0
    }
}

impl View for Development {
    type V = DevelopmentView;

    open spec fn view(&self) -> DevelopmentView {
        DevelopmentView {
            price: self.price@,
            resource_type: self.resource_type,
            points: self.points,
        }
    }
}

impl Clone for Development {
    fn clone(&self) -> (copy: Self)
        ensures
            copy@ == self@,
    {
        Development {
            price: self.price.clone(),
            resource_type: self.resource_type,
            points: self.points,
        }
    }
}

/// A noble: the production that it asks for, and its points.
#[derive(Debug, PartialEq, Eq)]
pub struct Noble {
    pub capital: ResourceMap,
    pub points: i32,
}

/// The model of a noble.
pub struct NobleView {
    pub capital: Seq<ResourceEntry>,
    pub points: i32,
}

impl NobleView {
    /// A noble asks for gems only and has no negative points.
    pub open spec fn wf(self) -> bool {
        &&& is_requirement(self.capital)
        &&& self.points >= 0
    }

    /// Two nobles ask for the same when they ask for the same amount of every kind.
    pub open spec fn same_capital(self, other: NobleView) -> bool {
        forall|kind: int|
            0 <= kind < GEM_KINDS ==> #[trigger] amount_in(self.capital, kind) == amount_in(
                other.capital,
                kind,
            )
    }
}

impl View for Noble {
    type V = NobleView;

    open spec fn view(&self) -> NobleView {
        NobleView { capital: self.capital@, points: self.points }
    }
}

impl Clone for Noble {
    fn clone(&self) -> (copy: Self)
        ensures
            copy@ == self@,
    {
        Noble { capital: self.capital.clone(), points: self.points }
    }
}

/// Copies a list of cards.
pub fn clone_developments(cards: &Vec<Development>) -> (copy: Vec<Development>)
    ensures
        views(copy@) == views(cards@),
{
    let copy = cards.clone();
    assert(views(copy@) =~= views(cards@));
    copy
}

/// Copies a list of nobles.
pub fn clone_nobles(nobles: &Vec<Noble>) -> (copy: Vec<Noble>)
    ensures
        views(copy@) == views(nobles@),
{
    let copy = nobles.clone();
    assert(views(copy@) =~= views(nobles@));
    copy
}

/// What everybody may know of one tier: the size of its deck and its face-up cards.
#[derive(Debug, PartialEq, Eq)]
pub struct DevelopmentLevelState {
    pub deck_num: i32,
    pub cards: Vec<Development>,
}

/// The model of a tier's public state.
pub struct DevelopmentLevelStateView {
    pub deck_num: i32,
    pub cards: Seq<DevelopmentView>,
}

impl View for DevelopmentLevelState {
    type V = DevelopmentLevelStateView;

    open spec fn view(&self) -> DevelopmentLevelStateView {
        DevelopmentLevelStateView { deck_num: self.deck_num, cards: views(self.cards@) }
    }
}

impl Clone for DevelopmentLevelState {
    fn clone(&self) -> (copy: Self)
        ensures
            copy@ == self@,
    {
        DevelopmentLevelState { deck_num: self.deck_num, cards: clone_developments(&self.cards) }
    }
}

/// What everybody may know of one player.
#[derive(Debug, PartialEq, Eq)]
pub struct PlayerState {
    /// The player's production: the owned cards counted by the gem they yield.
    pub development: ResourceMap,
    /// The tokens that the player holds.
    pub resource: ResourceMap,
    pub nobles: Vec<Noble>,
    /// How many cards the player has reserved; which ones stays hidden.
    pub reserved_num: i32,
    pub points: i32,
}

/// The model of a player's public state.
pub struct PlayerStateView {
    pub development: Seq<ResourceEntry>,
    pub resource: Seq<ResourceEntry>,
    pub nobles: Seq<NobleView>,
    pub reserved_num: i32,
    pub points: i32,
}

impl View for PlayerState {
    type V = PlayerStateView;

    open spec fn view(&self) -> PlayerStateView {
        PlayerStateView {
            development: self.development@,
            resource: self.resource@,
            nobles: views(self.nobles@),
            reserved_num: self.reserved_num,
            points: self.points,
        }
    }
}

impl Clone for PlayerState {
    fn clone(&self) -> (copy: Self)
        ensures
            copy@ == self@,
    {
        PlayerState {
            development: self.development.clone(),
            resource: self.resource.clone(),
            nobles: clone_nobles(&self.nobles),
            reserved_num: self.reserved_num,
            points: self.points,
        }
    }
}

/// What everybody may know of a room.
#[derive(Debug, PartialEq, Eq)]
pub struct GameState {
    pub dev_level1: DevelopmentLevelState,
    pub dev_level2: DevelopmentLevelState,
    pub dev_level3: DevelopmentLevelState,
    pub resources_on_board: ResourceMap,
    pub nobles_on_board: Vec<Noble>,
    /// One entry for each player, in the order of the roster.
    pub player_states: Vec<PlayerState>,
}

/// The model of a room's public state.
pub struct GameStateView {
    pub dev_level1: DevelopmentLevelStateView,
    pub dev_level2: DevelopmentLevelStateView,
    pub dev_level3: DevelopmentLevelStateView,
    pub resources_on_board: Seq<ResourceEntry>,
    pub nobles_on_board: Seq<NobleView>,
    pub player_states: Seq<PlayerStateView>,
}

impl View for GameState {
    type V = GameStateView;

    open spec fn view(&self) -> GameStateView {
        GameStateView {
            dev_level1: self.dev_level1@,
            dev_level2: self.dev_level2@,
            dev_level3: self.dev_level3@,
            resources_on_board: self.resources_on_board@,
            nobles_on_board: views(self.nobles_on_board@),
            player_states: views(self.player_states@),
        }
    }
}

impl Clone for GameState {
    fn clone(&self) -> (copy: Self)
        ensures
            copy@ == self@,
    {
        let player_states = self.player_states.clone();
        assert(views(player_states@) =~= views(self.player_states@));
        GameState {
            dev_level1: self.dev_level1.clone(),
            dev_level2: self.dev_level2.clone(),
            dev_level3: self.dev_level3.clone(),
            resources_on_board: self.resources_on_board.clone(),
            nobles_on_board: clone_nobles(&self.nobles_on_board),
            player_states,
        }
    }
}

/// The notice that opens a game.
#[derive(Debug, PartialEq, Eq)]
pub struct GameStart {
    /// The seat, counted from zero, of the player who moves first.
    pub first_player: i32,
    pub state: GameState,
}

/// The model of a game's opening notice.
pub struct GameStartView {
    pub first_player: i32,
    pub state: GameStateView,
}

impl View for GameStart {
    type V = GameStartView;

    open spec fn view(&self) -> GameStartView {
        GameStartView { first_player: self.first_player, state: self.state@ }
    }
}

impl Clone for GameStart {
    fn clone(&self) -> (copy: Self)
        ensures
            copy@ == self@,
    {
        GameStart { first_player: self.first_player, state: self.state.clone() }
    }
}

/// The settings that a start-game request carries.
#[derive(Clone, Copy, Debug, PartialEq, Eq, Structural)]
pub struct StartGameSettings {
    pub round_time: i32,
}

impl View for StartGameSettings {
    type V = StartGameSettings;

    open spec fn view(&self) -> StartGameSettings {
        *self
    }
}

/// A request for one token of each listed kind; a kind may be listed more than once.
#[derive(Debug, PartialEq, Eq)]
pub struct Take {
    pub resources: Vec<i32>,
}

/// A request to buy a card: from the face-up cards of tier `development_level`
/// at `index`, or, where `development_level` is negative, from the buyer's
/// reserved cards at `index`.
#[derive(Clone, Copy, Debug, PartialEq, Eq, Structural)]
pub struct Purchase {
    pub development_level: i32,
    pub index: i32,
}

/// A request to reserve a card of tier `development_level`: the face-up card
/// at `index`, or, where `index` is negative, the top of the deck.
#[derive(Clone, Copy, Debug, PartialEq, Eq, Structural)]
pub struct Reserve {
    pub development_level: i32,
    pub index: i32,
}

/// What a player asks for.
#[derive(Debug, PartialEq, Eq)]
pub enum Operation {
    Take(Take),
    Purchase(Purchase),
    Reserve(Reserve),
}

/// The model of a player's request.
pub enum OperationView {
    Take(Seq<i32>),
    Purchase(Purchase),
    Reserve(Reserve),
}

impl View for Operation {
    type V = OperationView;

    open spec fn view(&self) -> OperationView {
        match self {
            Operation::Take(take) => OperationView::Take(take.resources@),
            Operation::Purchase(purchase) => OperationView::Purchase(*purchase),
            Operation::Reserve(reserve) => OperationView::Reserve(*reserve),
        }
    }
}

impl Clone for Operation {
    fn clone(&self) -> (copy: Self)
        ensures
            copy@ == self@,
    {
        match self {
            Operation::Take(take) => {
                let resources = take.resources.clone();
                assert(resources@ =~= take.resources@);
                Operation::Take(Take { resources })
            },
            Operation::Purchase(purchase) => Operation::Purchase(*purchase),
            Operation::Reserve(reserve) => Operation::Reserve(*reserve),
        }
    }
}

/// The payload of a user-operation message.
#[derive(Debug, PartialEq, Eq)]
pub struct UserOperation {
    pub operation: Operation,
}

impl View for UserOperation {
    type V = OperationView;

    open spec fn view(&self) -> OperationView {
        self.operation@
    }
}

impl Clone for UserOperation {
    fn clone(&self) -> (copy: Self)
        ensures
            copy@ == self@,
    {
        UserOperation { operation: self.operation.clone() }
    }
}

/// The answer to a player who reserved the top of a deck: the card drawn.
#[derive(Debug, PartialEq, Eq)]
pub struct ReserveFromDeckRsp {
    pub card: Development,
}

/// What a notice says.
#[derive(Debug, PartialEq, Eq)]
pub enum Notice {
    GameStart(GameStart),
    State(GameState),
    LastUserOperation(UserOperation),
    ReserveRsp(ReserveFromDeckRsp),
}

/// The model of what a notice says.
pub enum NoticeView {
    GameStart(GameStartView),
    State(GameStateView),
    LastUserOperation(OperationView),
    ReserveRsp(DevelopmentView),
}

/// The payload of a notification.
#[derive(Debug, PartialEq, Eq)]
pub struct NotifyMsg {
    pub msg: Notice,
}

impl View for NotifyMsg {
    type V = NoticeView;

    open spec fn view(&self) -> NoticeView {
        match self.msg {
            Notice::GameStart(start) => NoticeView::GameStart(start@),
            Notice::State(state) => NoticeView::State(state@),
            Notice::LastUserOperation(op) => NoticeView::LastUserOperation(op@),
            Notice::ReserveRsp(rsp) => NoticeView::ReserveRsp(rsp.card@),
        }
    }
}

} // verus!
