//! What holds of every game, whatever its players do.

use crate::fault::EngineFault;
use crate::seqs::occurrences;
use crate::splendor::messages::{
    amount_in, NoticeView, OperationView, Reserve, RESOURCE_KINDS,
};
use crate::splendor::model::{
    card_points, noble_points, staying, supply, visiting, visits, GameView, TOTAL_CARDS,
    TOTAL_NOBLES, WINDOW,
};
use crate::splendor::moves::{
    lemma_card_points_bounds, lemma_exchange, lemma_noble_points_bounds, lemma_parting,
    lemma_purchase_wf, lemma_reserve_wf, lemma_shares,
};
use crate::splendor::msg_builder::{notice_for, SplendorMsgView};
use crate::splendor::state::{lemma_amount_nonnegative, GlobalView};
use vstd::prelude::*;

verus! {

/// A listed kind occurs at least once.
pub proof fn lemma_occurs(kinds: Seq<i32>, at: int)
    requires
        0 <= at < kinds.len(),
    ensures
        occurrences(kinds, kinds[at] as int) >= 1,
    decreases kinds.len(),
{
    if at < kinds.len() - 1 {
        assert(kinds.drop_last()[at] == kinds[at]);
        lemma_occurs(kinds.drop_last(), at);
    }
}

/// Tokens that a room hands to a player stay in the room: a take that the
/// room does not refuse leaves it well formed.
pub proof fn lemma_take_wf(game: GameView, user: u32, kinds: Seq<i32>)
    requires
        game.wf(),
        game.take_fault(user, kinds) is None,
    ensures
        game.after_take(user, kinds).wf(),
{
    let after = game.after_take(user, kinds);
    let board = after.board;
    let holder = after.players[user];
    let player = game.players[user];
    assert(player.wf());
    lemma_shares(game, user);
    assert forall|kind: int| 0 <= kind < RESOURCE_KINDS implies 0 <= #[trigger] occurrences(
        kinds,
        kind,
    ) <= game.board.resources_on_board[kind].number by {
        if occurrences(kinds, kind) > game.board.resources_on_board[kind].number {
            assert(game.take_fault(user, kinds) is Some);
        }
    }
    assert forall|kind: int| 0 <= kind < RESOURCE_KINDS implies (
    #[trigger] board.resources_on_board[kind]).number + holder.resource[kind].number
        == game.board.resources_on_board[kind].number + player.resource[kind].number by {
        assert(0 <= occurrences(kinds, kind) <= game.board.resources_on_board[kind].number);
        assert(game.board.resources_on_board[kind].number + player.resource[kind].number
            <= supply(kind));
    }
    assert(board.wf()) by {
        assert forall|kind: int| 0 <= kind < RESOURCE_KINDS implies (
        #[trigger] board.resources_on_board[kind]).resource_type == kind
            && board.resources_on_board[kind].number >= 0 by {
            assert(0 <= occurrences(kinds, kind) <= game.board.resources_on_board[kind].number);
        }
        assert forall|tier: int| 0 <= tier < 3 implies (#[trigger] board.dev_cards[tier]).wf()
            && board.dev_cards[tier].size() <= crate::splendor::model::tier_total(tier) by {
            assert(game.board.dev_cards[tier].wf());
        }
    }
    assert(holder.wf()) by {
        assert forall|kind: int| 0 <= kind < RESOURCE_KINDS implies (
        #[trigger] holder.resource[kind]).resource_type == kind && holder.resource[kind].number
            >= 0 by {
            assert(0 <= occurrences(kinds, kind) <= game.board.resources_on_board[kind].number);
            assert(game.board.resources_on_board[kind].number + player.resource[kind].number
                <= supply(kind));
        }
    }
    lemma_exchange(game, board, user, holder);
}

/// Whatever a player asks of a room, the room is well formed afterwards.
pub proof fn lemma_after_wf(game: GameView, user: u32, request: OperationView)
    requires
        game.wf(),
    ensures
        game.after(user, request).wf(),
{
    if game.fault(user, request) is None {
        match request {
            OperationView::Take(kinds) => lemma_take_wf(game, user, kinds),
            OperationView::Purchase(purchase) => lemma_purchase_wf(
                game,
                user,
                purchase.development_level as int,
                purchase.index as int,
            ),
            OperationView::Reserve(reserve) => lemma_reserve_wf(
                game,
                user,
                reserve.development_level as int,
                reserve.index as int,
            ),
        }
    }
}

/// One request of one user.
pub struct Move {
    pub user: u32,
    pub request: OperationView,
}

/// The room after the moves, the first one first. A move that the room
/// refuses leaves it as it is.
pub open spec fn play(game: GameView, moves: Seq<Move>) -> GameView
    decreases moves.len(),
{
    if moves.len() == 0 {
        game
    } else {
        play(game, moves.drop_last()).after(moves.last().user, moves.last().request)
    }
}

/// No token enters or leaves a room: after any moves, takes or others, the
/// tokens of each kind on the board and with the players are together as
/// many as the board had when the room was opened.
pub proof fn lemma_tokens_are_conserved(game: GameView, moves: Seq<Move>, kind: int)
    requires
        game.wf(),
        0 <= kind < RESOURCE_KINDS,
    ensures
        play(game, moves).wf(),
        play(game, moves).tokens_in_room(kind) == supply(kind),
        play(game, moves).cards_in_room() == TOTAL_CARDS,
        play(game, moves).nobles_in_room() == TOTAL_NOBLES,
    decreases moves.len(),
{
    if moves.len() > 0 {
        lemma_tokens_are_conserved(game, moves.drop_last(), kind);
        lemma_after_wf(play(game, moves.drop_last()), moves.last().user, moves.last().request);
    }
    assert(play(game, moves).tokens_in_room(kind) == supply(kind));
}

/// A kind of which the board has no token cannot be taken: a take that
/// lists it is refused and changes nothing.
pub proof fn lemma_no_take_from_nothing(game: GameView, user: u32, kinds: Seq<i32>, at: int)
    requires
        game.wf(),
        0 <= at < kinds.len(),
        0 <= kinds[at] < RESOURCE_KINDS,
        game.board.resources_on_board[kinds[at] as int].number == 0,
    ensures
        game.take_fault(user, kinds) is Some,
        game.after(user, OperationView::Take(kinds)) == game,
        game.players.contains_key(user) && (forall|i: int|
            0 <= i < kinds.len() ==> 0 <= #[trigger] kinds[i] < RESOURCE_KINDS)
            ==> game.take_fault(user, kinds) == Some(EngineFault::InvariantViolation),
{
    lemma_occurs(kinds, at);
    assert(occurrences(kinds, kinds[at] as int)
        > game.board.resources_on_board[kinds[at] as int].number);
}

/// Reserving a face-up card leaves the window full and takes one card off
/// the deck as long as the deck has cards; after that the window shrinks.
pub proof fn lemma_reserve_from_window(game: GameView, user: u32, level: int, index: int)
    requires
        game.wf(),
        index >= 0,
        game.reserve_fault(user, level, index) is None,
    ensures
        ({
            let before = game.board.dev_cards[level];
            let after = game.after_reserve(user, level, index).board.dev_cards[level];
            if before.deck.len() > 0 {
                &&& after.cards_on_board.len() == WINDOW
                &&& after.deck.len() == before.deck.len() - 1
                &&& after.cards_on_board[index] == before.deck.last()
            } else {
                &&& after.cards_on_board.len() == before.cards_on_board.len() - 1
                &&& after.deck.len() == 0
            }
        }),
        game.after_reserve(user, level, index).players[user].reserved_cards
            == game.players[user].reserved_cards.push(
            game.board.dev_cards[level].cards_on_board[index],
        ),
{
    assert(game.board.dev_cards[level].wf());
}

/// A purchase moves exactly the price from the buyer's tokens to the
/// board, adds the card to the buyer's cards, and adds to the buyer's
/// points those of the card and of the nobles that visit.
pub proof fn lemma_purchase_pays(game: GameView, user: u32, level: int, index: int, kind: int)
    requires
        game.wf(),
        game.purchase_fault(user, level, index) is None,
        0 <= kind < RESOURCE_KINDS,
    ensures
        ({
            let card = game.purchase_card(user, level, index)->0;
            let after = game.after_purchase(user, level, index);
            let buyer = game.players[user];
            let owner = after.players[user];
            &&& amount_in(card.price, kind) >= 0
            &&& owner.resource[kind].number == buyer.resource[kind].number - amount_in(
                card.price,
                kind,
            )
            &&& after.board.resources_on_board[kind].number
                == game.board.resources_on_board[kind].number + amount_in(card.price, kind)
            &&& owner.dev_cards == buyer.dev_cards.push(card)
            &&& owner.points == buyer.points + card.points + noble_points(
                visiting(game.board.nobles_on_board, owner.dev_cards),
            )
            &&& owner.points == card_points(owner.dev_cards) + noble_points(owner.nobles)
        }),
{
    let card = game.purchase_card(user, level, index)->0;
    let buyer = game.players[user];
    lemma_purchase_wf(game, user, level, index);
    lemma_shares(game, user);
    assert(buyer.wf());
    if level >= 0 {
        assert(game.board.dev_cards[level].wf());
    }
    assert(card.wf());
    lemma_amount_nonnegative(card.price, kind);
    assert(amount_in(card.price, kind) <= buyer.resource[kind].number);
    assert(game.board.resources_on_board[kind].number + buyer.resource[kind].number <= supply(
        kind,
    ));
    let after = game.after_purchase(user, level, index);
    assert(after.players.contains_key(user));
    assert(after.players[user].wf());
    let owned = buyer.dev_cards.push(card);
    lemma_parting(game.board.nobles_on_board, owned);
    lemma_noble_points_bounds(visiting(game.board.nobles_on_board, owned));
    lemma_noble_points_bounds(buyer.nobles);
    lemma_card_points_bounds(buyer.dev_cards);
}

/// After a purchase every noble whose capital the buyer's production
/// meets is with the buyer and off the board, and every other noble of the
/// board is still on it.
pub proof fn lemma_purchase_nobles(game: GameView, user: u32, level: int, index: int, at: int)
    requires
        game.wf(),
        game.purchase_fault(user, level, index) is None,
        0 <= at < game.board.nobles_on_board.len(),
    ensures
        ({
            let after = game.after_purchase(user, level, index);
            let owned = after.players[user].dev_cards;
            let noble = game.board.nobles_on_board[at];
            &&& visits(noble, owned) ==> after.players[user].nobles.contains(noble)
            &&& !visits(noble, owned) ==> after.board.nobles_on_board.contains(noble)
            &&& forall|i: int|
                0 <= i < after.board.nobles_on_board.len() ==> !visits(
                    #[trigger] after.board.nobles_on_board[i],
                    owned,
                )
        }),
{
    let after = game.after_purchase(user, level, index);
    let owned = after.players[user].dev_cards;
    let nobles = game.board.nobles_on_board;
    let noble = nobles[at];
    let guests = visiting(nobles, owned);
    let others = staying(nobles, owned);
    let is_guest = |noble: crate::splendor::messages::NobleView| visits(noble, owned);
    let is_other = |noble: crate::splendor::messages::NobleView| !visits(noble, owned);
    #[allow(deprecated)]
    nobles.filter_lemma(is_guest);
    #[allow(deprecated)]
    nobles.filter_lemma(is_other);
    if visits(noble, owned) {
        assert(is_guest(nobles[at]));
        assert(guests.contains(noble));
        let back = choose|k: int| 0 <= k < guests.len() && guests[k] == noble;
        let buyer = game.players[user];
        assert(after.players[user].nobles[buyer.nobles.len() + (guests.len() - 1 - back)]
            == noble);
    } else {
        assert(is_other(nobles[at]));
        assert(others.contains(noble));
    }
    assert forall|i: int| 0 <= i < after.board.nobles_on_board.len() implies !visits(
        #[trigger] after.board.nobles_on_board[i],
        owned,
    ) by {
        assert(is_other(others[i]));
    }
}

/// Who reserves the top of a deck is told alone which card it is; the room
/// is told its public state, which says how many cards a player has
/// reserved and not which.
pub proof fn lemma_reserve_from_deck_is_secret(rooms: GlobalView, reserve: Reserve)
    requires
        rooms.wf(),
        reserve.index < 0,
        rooms.room_fault(OperationView::Reserve(reserve)) is None,
    ensures
        ({
            let told = rooms.operation_answers(OperationView::Reserve(reserve));
            let room = rooms.rooms[rooms.cur_roomid];
            let card = room.board.dev_cards[reserve.development_level as int].deck.last();
            &&& told.len() == 3
            &&& told[0] == notice_for(
                rooms.cur_roomid,
                rooms.cur_userid,
                NoticeView::ReserveRsp(card),
            )
            &&& told[1] == notice_for(
                rooms.cur_roomid,
                0,
                NoticeView::State(
                    rooms.after(OperationView::Reserve(reserve)).rooms[rooms.cur_roomid].public(),
                ),
            )
            &&& told[2] == notice_for(
                rooms.cur_roomid,
                (-rooms.cur_userid) as i32,
                NoticeView::LastUserOperation(OperationView::Reserve(reserve)),
            )
            &&& rooms.after(OperationView::Reserve(reserve)).rooms[rooms.cur_roomid].players[
            rooms.user()].reserved_cards.last() == card
        }),
{
}

/// One operation as the service hands it to the engine.
pub struct Step {
    pub room_id: i32,
    pub user_id: u32,
    pub operation: OperationView,
}

impl GlobalView {
    /// The context set to the room and the user of a step.
    pub open spec fn at(self, step: Step) -> GlobalView {
        GlobalView { cur_roomid: step.room_id, cur_userid: step.user_id as i32, ..self }
    }

    /// The rooms after the steps, the first one first.
    pub open spec fn run(self, steps: Seq<Step>) -> GlobalView
        decreases steps.len(),
    {
        if steps.len() == 0 {
            self
        } else {
            let before = self.run(steps.drop_last()).at(steps.last());
            if before.operation_fault(steps.last().operation) is Some {
                before
            } else {
                before.after(steps.last().operation)
            }
        }
    }

    /// What the users are told in the course of the steps.
    pub open spec fn told(self, steps: Seq<Step>) -> Seq<SplendorMsgView>
        decreases steps.len(),
    {
        if steps.len() == 0 {
            Seq::empty()
        } else {
            let before = self.run(steps.drop_last()).at(steps.last());
            self.told(steps.drop_last()) + if before.operation_fault(steps.last().operation)
                is Some {
                Seq::empty()
            } else {
                before.operation_answers(steps.last().operation)
            }
        }
    }
}

/// A game can be replayed: two engines with the same rooms that are handed
/// the same steps end with the same rooms and have told their users the
/// same, whatever they did before.
pub proof fn lemma_replay(a: GlobalView, b: GlobalView, steps: Seq<Step>)
    requires
        a.rooms == b.rooms,
    ensures
        a.run(steps).rooms == b.run(steps).rooms,
        a.told(steps) == b.told(steps),
        steps.len() > 0 ==> a.run(steps) == b.run(steps),
    decreases steps.len(),
{
    if steps.len() > 0 {
        lemma_replay(a, b, steps.drop_last());
        let x = a.run(steps.drop_last()).at(steps.last());
        let y = b.run(steps.drop_last()).at(steps.last());
        assert(x == y);
    }
}

/// Whatever steps an engine is handed, its rooms stay well formed.
pub proof fn lemma_run_wf(rooms: GlobalView, steps: Seq<Step>)
    requires
        rooms.wf(),
    ensures
        rooms.run(steps).wf(),
    decreases steps.len(),
{
    if steps.len() > 0 {
        lemma_run_wf(rooms, steps.drop_last());
        let before = rooms.run(steps.drop_last()).at(steps.last());
        let operation = steps.last().operation;
        if before.operation_fault(operation) is None {
            let after = before.after(operation);
            assert forall|room: i32| #[trigger]
                after.rooms.contains_key(room) implies after.rooms[room].wf() by {
                if room == before.cur_roomid {
                    assert(before.rooms.contains_key(room));
                    lemma_after_wf(before.rooms[room], before.user(), operation);
                } else {
                    assert(before.rooms.contains_key(room));
                }
            }
        }
    }
}

} // verus!
