//! The moves of a player on a room: taking tokens, buying a card,
//! reserving a card. A move that the room refuses leaves it untouched.

use crate::fault::EngineFault;
use crate::seqs::{lemma_occurrences_prefix, occurrences, views};
use crate::splendor::messages::{
    amount_in, is_ledger, Development, DevelopmentView, Noble, NobleView, ResourceEntry,
    ResourceMap, GOLD, RESOURCE_KINDS,
};
use crate::splendor::model::{
    card_points, cards_of, cards_wf, covers, ledger_minus_kinds,
    ledger_plus_kinds, lemma_roster_sum_bound,
    lemma_roster_sum_update, meets, noble_points, nobles_of, nobles_wf, production,
    production_ledger, staying, supply, tokens_of, visiting, visits, BoardView, GameView,
    LevelView, PlayerView, MAX_CARD_POINTS, NOBLE_POINTS, TIERS, TOTAL_CARDS, TOTAL_NOBLES,
};
use crate::splendor::state::{
    lemma_amount_nonnegative, lemma_production_bound, GameState, PlayerState,
};
use vstd::prelude::*;

verus! {

/// What a player and the board hold together is bounded by what the room holds.
pub proof fn lemma_shares(game: GameView, user: u32)
    requires
        game.wf(),
        game.players.contains_key(user),
    ensures
        forall|kind: int|
            0 <= kind < RESOURCE_KINDS ==> (#[trigger] game.board.resources_on_board[kind]).number
                + game.players[user].resource[kind].number <= supply(kind),
        game.board.cards() + game.players[user].cards() <= TOTAL_CARDS,
        game.board.nobles_on_board.len() + game.players[user].nobles.len() <= TOTAL_NOBLES,
{
    assert forall|i: int| 0 <= i < game.roster.len() implies game.players.contains_key(
        #[trigger] game.roster[i],
    ) by {
        assert(game.roster.contains(game.roster[i]));
    }
    assert forall|kind: int| 0 <= kind < RESOURCE_KINDS implies (
    #[trigger] game.board.resources_on_board[kind]).number
        + game.players[user].resource[kind].number <= supply(kind) by {
        assert forall|i: int| 0 <= i < game.roster.len() implies tokens_of(kind)(
            game.players[#[trigger] game.roster[i]],
        ) >= 0 by {
            assert(game.players[game.roster[i]].wf());
        }
        lemma_roster_sum_bound(game.roster, game.players, user, tokens_of(kind));
        assert(game.tokens_in_room(kind) == supply(kind));
    }
    lemma_roster_sum_bound(game.roster, game.players, user, cards_of());
    lemma_roster_sum_bound(game.roster, game.players, user, nobles_of());
}

/// A room stays well formed where the board and one player change without
/// a token, a card or a noble entering or leaving the room.
pub proof fn lemma_exchange(game: GameView, board: BoardView, user: u32, player: PlayerView)
    requires
        game.wf(),
        game.players.contains_key(user),
        board.wf(),
        player.wf(),
        forall|kind: int|
            0 <= kind < RESOURCE_KINDS ==> (#[trigger] board.resources_on_board[kind]).number
                + player.resource[kind].number == game.board.resources_on_board[kind].number
                + game.players[user].resource[kind].number,
        board.cards() + player.cards() == game.board.cards() + game.players[user].cards(),
        board.nobles_on_board.len() + player.nobles.len() == game.board.nobles_on_board.len()
            + game.players[user].nobles.len(),
    ensures
        game.with(board, user, player).wf(),
{
    let after = game.with(board, user, player);
    assert forall|other: u32| after.players.contains_key(other) <==> after.roster.contains(
        other,
    ) by {
        assert(game.players.contains_key(other) <==> game.roster.contains(other));
    }
    assert forall|kind: int| 0 <= kind < RESOURCE_KINDS implies #[trigger] after.tokens_in_room(
        kind,
    ) == supply(kind) by {
        lemma_roster_sum_update(game.roster, game.players, user, player, tokens_of(kind));
        assert(board.resources_on_board[kind].number + player.resource[kind].number
            == game.board.resources_on_board[kind].number
            + game.players[user].resource[kind].number);
        assert(game.tokens_in_room(kind) == supply(kind));
    }
    lemma_roster_sum_update(game.roster, game.players, user, player, cards_of());
    lemma_roster_sum_update(game.roster, game.players, user, player, nobles_of());
}

/// One listed kind more is one unit more of it.
proof fn lemma_kinds_step(ledger: Seq<ResourceEntry>, kinds: Seq<i32>, n: int)
    requires
        is_ledger(ledger, RESOURCE_KINDS as int),
        0 <= n < kinds.len(),
        0 <= kinds[n] < RESOURCE_KINDS,
    ensures
        forall|kind: int|
            occurrences(kinds.take(n + 1), kind) == #[trigger] occurrences(kinds.take(n), kind)
                + if kind == kinds[n] {
                1int
            } else {
                0int
            },
{
    assert(kinds.take(n + 1).drop_last() =~= kinds.take(n));
    assert(kinds.take(n + 1).last() == kinds[n]);
}

impl GameState {
    /// Hands the player one token of each listed kind from the board. The
    /// list is taken as it is: any length, any kind any number of times.
    /// Refused where the player is unknown, where a kind is unknown, and
    /// where the board has fewer tokens of a kind than the list asks for.
    #[verifier::loop_isolation(false)]
    pub fn take(&mut self, userid: u32, resources: &Vec<i32>) -> (done: Result<(), EngineFault>)
        requires
            old(self)@.wf(),
        ensures
            final(self)@.wf(),
            match done {
                Ok(_) => {
                    &&& old(self)@.take_fault(userid, resources@) is None
                    &&& final(self)@ == old(self)@.after_take(userid, resources@)
                },
                Err(fault) => {
                    &&& old(self)@.take_fault(userid, resources@) == Some(fault)
                    &&& final(self)@ == old(self)@
                },
            },
    {
        broadcast use vstd::std_specs::hash::group_hash_axioms;

        let ghost before = self@;
        let ghost kinds = resources@;
        if !self.userid_to_player_state.contains_key(&userid) {
            return Err(EngineFault::NotFound);
        }
        let mut i: usize = 0;
        while i < resources.len()
            invariant
                kinds == resources@,
                0 <= i <= resources.len(),
                forall|k: int| 0 <= k < i ==> 0 <= #[trigger] kinds[k] < RESOURCE_KINDS,
            decreases resources.len() - i,
        {
            if resources[i] < 0 || resources[i] >= 6 {
                assert(!(0 <= kinds[i as int] < RESOURCE_KINDS));
                return Err(EngineFault::IllegalOperation);
            }
            i = i + 1;
        }
        let mut on_board = self.board_state.resources_on_board.clone();
        i = 0;
        while i < resources.len()
            invariant
                kinds == resources@,
                0 <= i <= resources.len(),
                forall|k: int| 0 <= k < kinds.len() ==> 0 <= #[trigger] kinds[k] < RESOURCE_KINDS,
                is_ledger(before.board.resources_on_board, RESOURCE_KINDS as int),
                is_ledger(on_board@, RESOURCE_KINDS as int),
                on_board@ == ledger_minus_kinds(
                    before.board.resources_on_board,
                    kinds.take(i as int),
                ),
                forall|kind: int|
                    0 <= kind < RESOURCE_KINDS ==> #[trigger] occurrences(
                        kinds.take(i as int),
                        kind,
                    ) <= before.board.resources_on_board[kind].number,
            decreases resources.len() - i,
        {
            let kind = resources[i];
            let ghost held = on_board@;
            proof {
                lemma_kinds_step(before.board.resources_on_board, kinds, i as int);
            }
            match on_board.take_one(kind) {
                Ok(_) => {
                    assert(on_board@ =~= ledger_minus_kinds(
                        before.board.resources_on_board,
                        kinds.take(i + 1),
                    ));
                    assert forall|k: int| 0 <= k < RESOURCE_KINDS implies #[trigger] occurrences(
                        kinds.take(i + 1),
                        k,
                    ) <= before.board.resources_on_board[k].number by {
                        assert(occurrences(kinds.take(i as int), k)
                            <= before.board.resources_on_board[k].number);
                        assert(held[k].number == before.board.resources_on_board[k].number
                            - occurrences(kinds.take(i as int), k));
                    }
                },
                Err(_) => {
                    proof {
                        assert(held[kind as int].number == 0);
                        assert(occurrences(kinds.take(i as int), kind as int)
                            <= before.board.resources_on_board[kind as int].number);
                        lemma_occurrences_prefix(kinds, i + 1, kind as int);
                        assert(occurrences(kinds, kind as int)
                            > before.board.resources_on_board[kind as int].number);
                    }
                    return Err(EngineFault::InvariantViolation);
                },
            }
            i = i + 1;
        }
        assert(kinds.take(i as int) =~= kinds);
        assert(before.take_fault(userid, kinds) is None);
        proof {
            lemma_shares(before, userid);
        }
        let mut player = self.userid_to_player_state.remove(&userid).unwrap();
        let ghost hand = player@.resource;
        assert(player@ == before.players[userid]);
        assert(player@.wf());
        assert(hand =~= ledger_plus_kinds(hand, kinds.take(0)));
        i = 0;
        while i < resources.len()
            invariant
                kinds == resources@,
                0 <= i <= resources.len(),
                forall|k: int| 0 <= k < kinds.len() ==> 0 <= #[trigger] kinds[k] < RESOURCE_KINDS,
                is_ledger(hand, RESOURCE_KINDS as int),
                is_ledger(player@.resource, RESOURCE_KINDS as int),
                player@ == (PlayerView {
                    resource: ledger_plus_kinds(hand, kinds.take(i as int)),
                    ..before.players[userid]
                }),
                forall|kind: int|
                    0 <= kind < RESOURCE_KINDS ==> (#[trigger] hand[kind]).number + occurrences(
                        kinds,
                        kind,
                    ) <= supply(kind),
            decreases resources.len() - i,
        {
            let kind = resources[i];
            proof {
                lemma_kinds_step(hand, kinds, i as int);
                lemma_occurrences_prefix(kinds, i as int, kind as int);
                lemma_occurrences_prefix(kinds, i + 1, kind as int);
                assert(hand[kind as int].number + occurrences(kinds, kind as int) <= supply(
                    kind as int,
                ));
            }
            player.take_resource(kind);
            assert(player@.resource =~= ledger_plus_kinds(hand, kinds.take(i + 1)));
            i = i + 1;
        }
        assert(kinds.take(i as int) =~= kinds);
        self.board_state.resources_on_board = on_board;
        self.userid_to_player_state.insert(userid, player);
        proof {
            let after = before.after_take(userid, kinds);
            assert(self@.players =~= after.players);
            assert(self@ == after);
            let board = after.board;
            let holder = after.players[userid];
            assert forall|kind: int| 0 <= kind < RESOURCE_KINDS implies (
            #[trigger] board.resources_on_board[kind]).number + holder.resource[kind].number
                == before.board.resources_on_board[kind].number
                + before.players[userid].resource[kind].number by {
                assert(occurrences(kinds, kind) <= before.board.resources_on_board[kind].number);
                assert(hand[kind].number + occurrences(kinds, kind) <= supply(kind));
            }
            lemma_exchange(before, board, userid, holder);
        }
        Ok(())
    }
}

/// What one noble more adds to the visiting and to the staying nobles.
pub proof fn lemma_parting_step(nobles: Seq<NobleView>, owned: Seq<DevelopmentView>, n: int)
    requires
        0 <= n < nobles.len(),
    ensures
        visiting(nobles.take(n + 1), owned) == if visits(nobles[n], owned) {
            visiting(nobles.take(n), owned).push(nobles[n])
        } else {
            visiting(nobles.take(n), owned)
        },
        staying(nobles.take(n + 1), owned) == if visits(nobles[n], owned) {
            staying(nobles.take(n), owned)
        } else {
            staying(nobles.take(n), owned).push(nobles[n])
        },
{
    reveal(Seq::filter);
    assert(nobles.take(n + 1).drop_last() =~= nobles.take(n));
    assert(nobles.take(n + 1).last() == nobles[n]);
}

/// Every noble either visits or stays, and is as well formed as it was.
pub proof fn lemma_parting(nobles: Seq<NobleView>, owned: Seq<DevelopmentView>)
    ensures
        visiting(nobles, owned).len() + staying(nobles, owned).len() == nobles.len(),
        nobles_wf(nobles) ==> nobles_wf(visiting(nobles, owned)) && nobles_wf(
            staying(nobles, owned),
        ),
    decreases nobles.len(),
{
    reveal(Seq::filter);
    if nobles.len() > 0 {
        let rest = nobles.drop_last();
        lemma_parting(rest, owned);
        if nobles_wf(nobles) {
            assert forall|i: int| 0 <= i < rest.len() implies (#[trigger] rest[i]).wf()
                && rest[i].points <= NOBLE_POINTS by {
                assert(rest[i] == nobles[i]);
            }
            assert(nobles.last() == nobles[nobles.len() - 1]);
        }
    }
}

/// Well-formed nobles have between nothing and `NOBLE_POINTS` points each.
pub proof fn lemma_noble_points_bounds(nobles: Seq<NobleView>)
    requires
        nobles_wf(nobles),
    ensures
        0 <= noble_points(nobles) <= NOBLE_POINTS * nobles.len(),
    decreases nobles.len(),
{
    if nobles.len() > 0 {
        let rest = nobles.drop_last();
        assert forall|i: int| 0 <= i < rest.len() implies (#[trigger] rest[i]).wf()
            && rest[i].points <= NOBLE_POINTS by {
            assert(rest[i] == nobles[i]);
        }
        lemma_noble_points_bounds(rest);
        assert(nobles.last() == nobles[nobles.len() - 1]);
    }
}

/// Well-formed cards have between nothing and `MAX_CARD_POINTS` points each.
pub proof fn lemma_card_points_bounds(cards: Seq<DevelopmentView>)
    requires
        cards_wf(cards),
    ensures
        0 <= card_points(cards) <= MAX_CARD_POINTS * cards.len(),
    decreases cards.len(),
{
    if cards.len() > 0 {
        let rest = cards.drop_last();
        assert forall|i: int| 0 <= i < rest.len() implies (#[trigger] rest[i]).wf()
            && rest[i].points <= MAX_CARD_POINTS by {
            assert(rest[i] == cards[i]);
        }
        lemma_card_points_bounds(rest);
        assert(cards.last() == cards[cards.len() - 1]);
    }
}

/// The points of two groups of nobles add up.
pub proof fn lemma_noble_points_append(a: Seq<NobleView>, b: Seq<NobleView>)
    ensures
        noble_points(a + b) == noble_points(a) + noble_points(b),
    decreases b.len(),
{
    if b.len() == 0 {
        assert(a + b =~= a);
    } else {
        lemma_noble_points_append(a, b.drop_last());
        assert((a + b).drop_last() =~= a + b.drop_last());
        assert((a + b).last() == b.last());
    }
}

/// The points of nobles do not depend on their order.
pub proof fn lemma_noble_points_reverse(nobles: Seq<NobleView>)
    ensures
        noble_points(nobles.reverse()) == noble_points(nobles),
    decreases nobles.len(),
{
    if nobles.len() > 0 {
        let rest = nobles.drop_last();
        let last = nobles.last();
        lemma_noble_points_reverse(rest);
        assert(nobles.reverse() =~= seq![last] + rest.reverse());
        lemma_noble_points_append(seq![last], rest.reverse());
        assert(seq![last].drop_last() =~= Seq::<NobleView>::empty());
        assert(noble_points(Seq::<NobleView>::empty()) == 0);
        assert(seq![last].last() == last);
        assert(noble_points(seq![last]) == last.points);
    }
}

/// A ledger of the production meets a capital when the production does.
pub proof fn lemma_meets(noble: NobleView, owned: Seq<DevelopmentView>)
    requires
        noble.wf(),
        owned.len() <= TOTAL_CARDS,
    ensures
        meets(production_ledger(owned), noble.capital) == visits(noble, owned),
{
    let ledger = production_ledger(owned);
    assert forall|i: int| 0 <= i < noble.capital.len() implies ledger[(
    #[trigger] noble.capital[i]).resource_type as int].number == production(
        owned,
        noble.capital[i].resource_type as int,
    ) by {
        lemma_production_bound(owned, noble.capital[i].resource_type as int);
    }
}

impl Noble {
    /// Whether the ledger holds, for every entry of the capital, at least
    /// what the entry asks for.
    pub fn is_met_by(&self, ledger: &ResourceMap) -> (met: bool)
        requires
            self@.wf(),
            ledger@.len() == RESOURCE_KINDS,
        ensures
            met == meets(ledger@, self@.capital),
    {
        let mut i: usize = 0;
        while i < self.capital.entries.len()
            invariant
                self@.wf(),
                ledger@.len() == RESOURCE_KINDS,
                0 <= i <= self.capital.entries.len(),
                forall|k: int|
                    0 <= k < i ==> (#[trigger] self@.capital[k]).number
                        <= ledger@[self@.capital[k].resource_type as int].number,
            decreases self.capital.entries.len() - i,
        {
            let entry = self.capital.entries[i];
            assert(entry == self@.capital[i as int]);
            if entry.number > ledger.entries[entry.resource_type as usize].number {
                return false;
            }
            i = i + 1;
        }
        true
    }
}

/// A purchase that the room does not refuse leaves it well formed.
pub proof fn lemma_purchase_wf(game: GameView, user: u32, level: int, index: int)
    requires
        game.wf(),
        game.purchase_fault(user, level, index) is None,
    ensures
        game.after_purchase(user, level, index).wf(),
{
    let after = game.after_purchase(user, level, index);
    let bought = game.purchase_card(user, level, index)->0;
    let buyer = game.players[user];
    let board = after.board;
    let holder = after.players[user];
    let owned = buyer.dev_cards.push(bought);
    let visitors = visiting(game.board.nobles_on_board, owned);
    assert(buyer.wf());
    lemma_shares(game, user);
    lemma_parting(game.board.nobles_on_board, owned);
    if level >= 0 {
        assert(game.board.dev_cards[level].wf());
        assert(bought.wf() && bought.points <= MAX_CARD_POINTS);
    } else {
        assert(bought.wf() && bought.points <= MAX_CARD_POINTS);
    }
    assert(board.wf()) by {
        assert forall|tier: int| 0 <= tier < TIERS implies (#[trigger] board.dev_cards[tier]).wf()
            && board.dev_cards[tier].size() <= crate::splendor::model::tier_total(tier) by {
            assert(game.board.dev_cards[tier].wf());
            if tier == level {
                let was = game.board.dev_cards[level];
                let now = was.after_take(index);
                assert(cards_wf(now.deck)) by {
                    assert forall|k: int| 0 <= k < now.deck.len() implies (
                    #[trigger] now.deck[k]).wf() && now.deck[k].points <= MAX_CARD_POINTS by {
                        assert(now.deck[k] == was.deck[k]);
                    }
                }
                assert(cards_wf(now.cards_on_board)) by {
                    assert forall|k: int| 0 <= k < now.cards_on_board.len() implies (
                    #[trigger] now.cards_on_board[k]).wf() && now.cards_on_board[k].points
                        <= MAX_CARD_POINTS by {
                        if was.deck.len() == 0 {
                            if k < index {
                                assert(now.cards_on_board[k] == was.cards_on_board[k]);
                            } else {
                                assert(now.cards_on_board[k] == was.cards_on_board[k + 1]);
                            }
                        } else {
                            if k == index {
                                assert(now.cards_on_board[k] == was.deck[was.deck.len() - 1]);
                            } else {
                                assert(now.cards_on_board[k] == was.cards_on_board[k]);
                            }
                        }
                    }
                }
            }
        }
        assert(is_ledger(board.resources_on_board, RESOURCE_KINDS as int)) by {
            assert forall|kind: int| 0 <= kind < RESOURCE_KINDS implies (
            #[trigger] board.resources_on_board[kind]).resource_type == kind
                && board.resources_on_board[kind].number >= 0 by {
                lemma_amount_nonnegative(bought.price, kind);
                assert(amount_in(bought.price, kind) <= buyer.resource[kind].number);
                assert(game.board.resources_on_board[kind].number + buyer.resource[kind].number
                    <= supply(kind));
            }
        }
    }
    assert forall|kind: int| 0 <= kind < RESOURCE_KINDS implies (
    #[trigger] board.resources_on_board[kind]).number + holder.resource[kind].number
        == game.board.resources_on_board[kind].number + buyer.resource[kind].number by {
        assert(amount_in(bought.price, kind) <= buyer.resource[kind].number);
        lemma_amount_nonnegative(bought.price, kind);
        assert(game.board.resources_on_board[kind].number + buyer.resource[kind].number <= supply(
            kind,
        ));
    }
    assert(board.cards() + holder.cards() == game.board.cards() + buyer.cards());
    lemma_noble_points_append(buyer.nobles, visitors.reverse());
    lemma_noble_points_reverse(visitors);
    lemma_noble_points_bounds(visitors);
    lemma_noble_points_bounds(buyer.nobles);
    lemma_card_points_bounds(buyer.dev_cards);
    assert(holder.wf()) by {
        assert(nobles_wf(holder.nobles)) by {
            assert forall|k: int| 0 <= k < holder.nobles.len() implies (
            #[trigger] holder.nobles[k]).wf() && holder.nobles[k].points <= NOBLE_POINTS by {
                if k < buyer.nobles.len() {
                    assert(holder.nobles[k] == buyer.nobles[k]);
                } else {
                    let back = visitors.len() - 1 - (k - buyer.nobles.len());
                    assert(holder.nobles[k] == visitors[back]);
                }
            }
        }
        assert(cards_wf(holder.reserved_cards)) by {
            if level < 0 {
                assert forall|k: int| 0 <= k < holder.reserved_cards.len() implies (
                #[trigger] holder.reserved_cards[k]).wf() && holder.reserved_cards[k].points
                    <= MAX_CARD_POINTS by {
                    if k < index {
                        assert(holder.reserved_cards[k] == buyer.reserved_cards[k]);
                    } else {
                        assert(holder.reserved_cards[k] == buyer.reserved_cards[k + 1]);
                    }
                }
            }
        }
        assert(cards_wf(owned)) by {
            assert forall|k: int| 0 <= k < owned.len() implies (#[trigger] owned[k]).wf()
                && owned[k].points <= MAX_CARD_POINTS by {
                if k < buyer.dev_cards.len() {
                    assert(owned[k] == buyer.dev_cards[k]);
                }
            }
        }
        assert(is_ledger(holder.resource, RESOURCE_KINDS as int)) by {
            assert forall|kind: int| 0 <= kind < RESOURCE_KINDS implies (
            #[trigger] holder.resource[kind]).resource_type == kind
                && holder.resource[kind].number >= 0 by {
                lemma_amount_nonnegative(bought.price, kind);
                assert(amount_in(bought.price, kind) <= buyer.resource[kind].number);
            }
        }
        assert(owned.drop_last() =~= buyer.dev_cards);
        assert(card_points(owned) == card_points(buyer.dev_cards) + bought.points);
    }
    lemma_exchange(game, board, user, holder);
}

impl PlayerState {
    /// Lets every noble of `nobles` whose capital the player's production
    /// meets visit the player, the last of them first, with its points. The
    /// other nobles stay, in their order.
    pub fn receive_nobles(&mut self, nobles: &mut Vec<Noble>)
        requires
            cards_wf(old(self)@.dev_cards),
            old(self)@.dev_cards.len() <= TOTAL_CARDS,
            nobles_wf(views(old(nobles)@)),
            0 <= old(self).points,
            old(self).points + NOBLE_POINTS * old(nobles)@.len() <= i32::MAX,
        ensures
            views(final(nobles)@) == staying(views(old(nobles)@), old(self)@.dev_cards),
            final(self)@ == (PlayerView {
                nobles: old(self)@.nobles + visiting(
                    views(old(nobles)@),
                    old(self)@.dev_cards,
                ).reverse(),
                points: (old(self).points + noble_points(
                    visiting(views(old(nobles)@), old(self)@.dev_cards),
                )) as i32,
                ..old(self)@
            }),
    {
        let ghost before = self@;
        let ghost owned = before.dev_cards;
        let ghost on_board = views(nobles@);
        let ledger = self.production();
        let mut stay: Vec<Noble> = Vec::new();
        let mut guests: Vec<Noble> = Vec::new();
        let mut bonus: i32 = 0;
        let mut i: usize = 0;
        assert(on_board.take(0) =~= Seq::<NobleView>::empty());
        proof {
            reveal(Seq::filter);
        }
        while i < nobles.len()
            invariant
                0 <= i <= on_board.len(),
                on_board == views(nobles@),
                nobles_wf(on_board),
                owned.len() <= TOTAL_CARDS,
                ledger@ == production_ledger(owned),
                views(stay@) == staying(on_board.take(i as int), owned),
                views(guests@) == visiting(on_board.take(i as int), owned),
                bonus == noble_points(views(guests@)),
                0 <= bonus <= NOBLE_POINTS * i,
                0 <= before.points == self.points,
                before.points + NOBLE_POINTS * on_board.len() <= i32::MAX,
            decreases on_board.len() - i,
        {
            let noble = &nobles[i];
            proof {
                assert(noble@ == on_board[i as int]);
                assert(noble@.wf());
                lemma_meets(noble@, owned);
                lemma_parting_step(on_board, owned, i as int);
            }
            if noble.is_met_by(&ledger) {
                let ghost had = views(guests@);
                bonus = bonus + noble.points;
                guests.push(noble.clone());
                assert(views(guests@) =~= had.push(noble@));
                assert(views(guests@).drop_last() =~= had);
            } else {
                let ghost had = views(stay@);
                stay.push(noble.clone());
                assert(views(stay@) =~= had.push(noble@));
            }
            i = i + 1;
        }
        assert(on_board.take(i as int) =~= on_board);
        let ghost visitors = visiting(on_board, owned);
        self.points = self.points + bonus;
        *nobles = stay;
        assert(visitors.reverse().take(0) =~= Seq::<NobleView>::empty());
        assert(views(self.nobles@) =~= before.nobles + visitors.reverse().take(0));
        assert(views(guests@) =~= visitors.take(guests@.len() as int));
        while guests.len() > 0
            invariant
                views(guests@) == visitors.take(guests@.len() as int),
                guests@.len() <= visitors.len(),
                views(self.nobles@) == before.nobles + visitors.reverse().take(
                    visitors.len() - guests@.len(),
                ),
                self@.dev_cards == before.dev_cards,
                self@.resource == before.resource,
                self@.reserved_cards == before.reserved_cards,
                self@.points == before.points + noble_points(visitors),
            decreases guests.len(),
        {
            let ghost had = views(self.nobles@);
            let ghost waiting = views(guests@);
            let ghost left = guests@.len() as int;
            let noble = guests.pop().unwrap();
            assert(noble@ == waiting[left - 1]);
            self.nobles.push(noble);
            assert(views(self.nobles@) =~= had.push(noble@));
            assert(views(guests@) =~= visitors.take(left - 1));
            assert(views(self.nobles@) =~= before.nobles + visitors.reverse().take(
                visitors.len() - left + 1,
            ));
        }
        assert(visitors.reverse().take(visitors.len() as int) =~= visitors.reverse());
    }
}

impl GameState {
    /// Why the room refuses the purchase, if it does.
    pub fn check_purchase(&self, userid: u32, development_level: i32, index: i32) -> (fault:
        Option<EngineFault>)
        requires
            self@.wf(),
        ensures
            fault == self@.purchase_fault(userid, development_level as int, index as int),
    {
        broadcast use vstd::std_specs::hash::group_hash_axioms;

        let ghost level = development_level as int;
        match self.userid_to_player_state.get(&userid) {
            None => Some(EngineFault::NotFound),
            Some(player) => {
                assert(self@.players.contains_key(userid));
                assert(player@ == self@.players[userid]);
                assert(player@.wf());
                if development_level >= 0 {
                    if development_level >= 3 {
                        return Some(EngineFault::NotFound);
                    }
                    let tier = &self.board_state.dev_cards[development_level as usize];
                    assert(tier@ == self@.board.dev_cards[level]);
                    assert(tier@.wf());
                    if index < 0 || index as usize >= tier.cards_on_board.len() {
                        return Some(EngineFault::NotFound);
                    }
                    let card = &tier.cards_on_board[index as usize];
                    assert(card@ == tier@.cards_on_board[index as int]);
                    assert(card@.wf());
                    if !player.resource.covers(&card.price) {
                        return Some(EngineFault::InvariantViolation);
                    }
                    None
                } else {
                    if index < 0 || index as usize >= player.reserved_cards.len() {
                        return Some(EngineFault::NotFound);
                    }
                    let card = &player.reserved_cards[index as usize];
                    assert(card@ == player@.reserved_cards[index as int]);
                    assert(card@.wf());
                    if !player.resource.covers(&card.price) {
                        return Some(EngineFault::InvariantViolation);
                    }
                    None
                }
            },
        }
    }

    /// Buys a card for the player: the face-up card of tier
    /// `development_level` at `index`, or, where `development_level` is
    /// negative, the player's reserved card at `index`. The player pays the
    /// price to the board in tokens, and every noble whose capital the
    /// player's production now meets leaves the board for the player.
    /// Refused where the player or the card does not exist and where the
    /// player's tokens do not cover the price.
    pub fn purchase(&mut self, userid: u32, development_level: i32, index: i32) -> (done: Result<
        (),
        EngineFault,
    >)
        requires
            old(self)@.wf(),
        ensures
            final(self)@.wf(),
            match done {
                Ok(_) => {
                    &&& old(self)@.purchase_fault(userid, development_level as int, index as int)
                        is None
                    &&& final(self)@ == old(self)@.after_purchase(
                        userid,
                        development_level as int,
                        index as int,
                    )
                },
                Err(fault) => {
                    &&& old(self)@.purchase_fault(userid, development_level as int, index as int)
                        == Some(fault)
                    &&& final(self)@ == old(self)@
                },
            },
    {
        broadcast use vstd::std_specs::hash::group_hash_axioms;

        let ghost before = self@;
        let ghost level = development_level as int;
        let ghost buyer = before.players[userid];
        match self.check_purchase(userid, development_level, index) {
            Some(fault) => {
                return Err(fault);
            },
            None => {},
        }
        let ghost bought = before.purchase_card(userid, level, index as int)->0;
        proof {
            lemma_purchase_wf(before, userid, level, index as int);
            lemma_shares(before, userid);
            assert(buyer.wf());
            if level >= 0 {
                assert(before.board.dev_cards[level].wf());
            }
            assert(bought.wf());
        }
        let mut player = self.userid_to_player_state.remove(&userid).unwrap();
        assert(player@ == buyer);
        let card = if development_level >= 0 {
            let tier = development_level as usize;
            let ghost tiers = views(self.board_state.dev_cards@);
            match self.board_state.dev_cards[tier].take(index) {
                Ok(card) => {
                    assert(views(self.board_state.dev_cards@) =~= tiers.update(
                        level,
                        tiers[level].after_take(index as int),
                    ));
                    card
                },
                Err(fault) => {
                    assert(false);
                    return Err(fault);
                },
            }
        } else {
            let card = player.reserved_cards.remove(index as usize);
            assert(views(player.reserved_cards@) =~= buyer.reserved_cards.remove(index as int));
            card
        };
        assert(card@ == bought);
        let ghost owned = buyer.dev_cards.push(bought);
        proof {
            assert forall|kind: int| 0 <= kind < RESOURCE_KINDS implies (
            #[trigger] before.board.resources_on_board[kind]).number + amount_in(
                bought.price,
                kind,
            ) <= i32::MAX by {
                assert(amount_in(bought.price, kind) <= buyer.resource[kind].number);
            }
            lemma_card_points_bounds(buyer.dev_cards);
            lemma_noble_points_bounds(buyer.nobles);
        }
        player.spend_resource(&card.price);
        self.board_state.return_resource(&card.price);
        player.points = player.points + card.points;
        player.dev_cards.push(card);
        assert(views(player.dev_cards@) =~= owned);
        proof {
            let after = before.after_purchase(userid, level, index as int);
            assert(after.players.contains_key(userid));
            assert(after.players[userid].wf());
            assert(after.players[userid].dev_cards == owned);
        }
        player.receive_nobles(&mut self.board_state.nobles_on_board);
        self.userid_to_player_state.insert(userid, player);
        proof {
            let after = before.after_purchase(userid, level, index as int);
            assert(self@.players =~= after.players);
        }
        Ok(())
    }
}

/// A tier from which a card was taken or drawn is well formed and has one
/// card less.
pub proof fn lemma_level_minus_one(level: LevelView, index: int)
    requires
        level.wf(),
        if index >= 0 {
            level.has_slot(index)
        } else {
            level.deck.len() > 0
        },
    ensures
        index >= 0 ==> level.after_take(index).wf() && level.after_take(index).size()
            == level.size() - 1,
        index < 0 ==> level.after_draw().wf() && level.after_draw().size() == level.size() - 1,
{
    if index >= 0 {
        let now = level.after_take(index);
        assert forall|k: int| 0 <= k < now.deck.len() implies (#[trigger] now.deck[k]).wf()
            && now.deck[k].points <= MAX_CARD_POINTS by {
            assert(now.deck[k] == level.deck[k]);
        }
        assert forall|k: int| 0 <= k < now.cards_on_board.len() implies (
        #[trigger] now.cards_on_board[k]).wf() && now.cards_on_board[k].points
            <= MAX_CARD_POINTS by {
            if level.deck.len() == 0 {
                if k < index {
                    assert(now.cards_on_board[k] == level.cards_on_board[k]);
                } else {
                    assert(now.cards_on_board[k] == level.cards_on_board[k + 1]);
                }
            } else {
                if k == index {
                    assert(now.cards_on_board[k] == level.deck[level.deck.len() - 1]);
                } else {
                    assert(now.cards_on_board[k] == level.cards_on_board[k]);
                }
            }
        }
    } else {
        let now = level.after_draw();
        assert forall|k: int| 0 <= k < now.deck.len() implies (#[trigger] now.deck[k]).wf()
            && now.deck[k].points <= MAX_CARD_POINTS by {
            assert(now.deck[k] == level.deck[k]);
        }
    }
}

/// A reservation that the room does not refuse leaves it well formed.
pub proof fn lemma_reserve_wf(game: GameView, user: u32, level: int, index: int)
    requires
        game.wf(),
        game.reserve_fault(user, level, index) is None,
    ensures
        game.after_reserve(user, level, index).wf(),
{
    let after = game.after_reserve(user, level, index);
    let card = game.reserve_card(level, index);
    let player = game.players[user];
    let board = after.board;
    let holder = after.players[user];
    let tier = game.board.dev_cards[level];
    assert(player.wf());
    assert(tier.wf());
    lemma_shares(game, user);
    lemma_level_minus_one(tier, index);
    assert(card.wf() && card.points <= MAX_CARD_POINTS) by {
        if index >= 0 {
            assert(card == tier.cards_on_board[index]);
        } else {
            assert(card == tier.deck[tier.deck.len() - 1]);
        }
    }
    assert(board.wf()) by {
        assert forall|t: int| 0 <= t < TIERS implies (#[trigger] board.dev_cards[t]).wf()
            && board.dev_cards[t].size() <= crate::splendor::model::tier_total(t) by {
            assert(game.board.dev_cards[t].wf());
        }
    }
    assert(cards_wf(holder.reserved_cards)) by {
        assert forall|k: int| 0 <= k < holder.reserved_cards.len() implies (
        #[trigger] holder.reserved_cards[k]).wf() && holder.reserved_cards[k].points
            <= MAX_CARD_POINTS by {
            if k < player.reserved_cards.len() {
                assert(holder.reserved_cards[k] == player.reserved_cards[k]);
            }
        }
    }
    assert(game.board.resources_on_board[GOLD as int].number + player.resource[GOLD as int].number
        <= supply(GOLD as int));
    assert(board.cards() + holder.cards() == game.board.cards() + player.cards());
    assert(holder.wf());
    lemma_exchange(game, board, user, holder);
}

impl GameState {
    /// Why the room refuses the reservation, if it does.
    pub fn check_reserve(&self, userid: u32, development_level: i32, index: i32) -> (fault:
        Option<EngineFault>)
        requires
            self@.wf(),
        ensures
            fault == self@.reserve_fault(userid, development_level as int, index as int),
    {
        broadcast use vstd::std_specs::hash::group_hash_axioms;

        if !self.userid_to_player_state.contains_key(&userid) {
            return Some(EngineFault::NotFound);
        }
        assert(self@.players.contains_key(userid));
        if development_level < 0 || development_level >= 3 {
            return Some(EngineFault::NotFound);
        }
        let tier = &self.board_state.dev_cards[development_level as usize];
        assert(tier@ == self@.board.dev_cards[development_level as int]);
        if index >= 0 {
            if index as usize >= tier.cards_on_board.len() {
                return Some(EngineFault::NotFound);
            }
        } else {
            if tier.deck.len() == 0 {
                return Some(EngineFault::IllegalOperation);
            }
        }
        None
    }

    /// Reserves a card of tier `development_level` for the player: the
    /// face-up card at `index`, or, where `index` is negative, the top of
    /// the deck. With it the player gets one premium token, if the board has
    /// one left. What is returned is a copy of the card where it came from
    /// the deck, for the player's eyes only; nothing where it was face up.
    /// Refused where the player, the tier or the face-up card does not
    /// exist, and where the deck of which the top is asked for is exhausted.
    pub fn reserve(&mut self, userid: u32, development_level: i32, index: i32) -> (done: Result<
        Option<Development>,
        EngineFault,
    >)
        requires
            old(self)@.wf(),
        ensures
            final(self)@.wf(),
            match done {
                Ok(secret) => {
                    &&& old(self)@.reserve_fault(userid, development_level as int, index as int)
                        is None
                    &&& final(self)@ == old(self)@.after_reserve(
                        userid,
                        development_level as int,
                        index as int,
                    )
                    &&& match secret {
                        Some(card) => index < 0 && card@ == old(self)@.reserve_card(
                            development_level as int,
                            index as int,
                        ),
                        None => index >= 0,
                    }
                },
                Err(fault) => {
                    &&& old(self)@.reserve_fault(userid, development_level as int, index as int)
                        == Some(fault)
                    &&& final(self)@ == old(self)@
                },
            },
    {
        broadcast use vstd::std_specs::hash::group_hash_axioms;

        let ghost before = self@;
        let ghost level = development_level as int;
        let ghost holder = before.players[userid];
        match self.check_reserve(userid, development_level, index) {
            Some(fault) => {
                return Err(fault);
            },
            None => {},
        }
        proof {
            lemma_reserve_wf(before, userid, level, index as int);
            lemma_shares(before, userid);
            assert(holder.wf());
        }
        let tier = development_level as usize;
        let ghost tiers = views(self.board_state.dev_cards@);
        let drawn = if index >= 0 {
            self.board_state.dev_cards[tier].take(index)
        } else {
            self.board_state.dev_cards[tier].draw()
        };
        let card = match drawn {
            Ok(card) => card,
            Err(fault) => {
                assert(false);
                return Err(fault);
            },
        };
        assert(views(self.board_state.dev_cards@) =~= tiers.update(
            level,
            if index >= 0 {
                tiers[level].after_take(index as int)
            } else {
                tiers[level].after_draw()
            },
        ));
        assert(card@ == before.reserve_card(level, index as int));
        let secret = if index < 0 {
            Some(card.clone())
        } else {
            None
        };
        let mut player = self.userid_to_player_state.remove(&userid).unwrap();
        assert(player@ == holder);
        player.reserved_cards.push(card);
        assert(views(player.reserved_cards@) =~= holder.reserved_cards.push(
            before.reserve_card(level, index as int),
        ));
        if self.board_state.resources_on_board.entries[5].number > 0 {
            match self.board_state.take_resource(5) {
                Ok(_) => {},
                Err(fault) => {
                    assert(false);
                    return Err(fault);
                },
            }
            player.take_resource(5);
        }
        self.userid_to_player_state.insert(userid, player);
        proof {
            let after = before.after_reserve(userid, level, index as int);
            assert(self@.players =~= after.players);
        }
        Ok(secret)
    }
}

} // verus!
