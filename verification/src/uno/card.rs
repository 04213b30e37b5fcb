//! The deck of the game: the pile to draw from and the discard pile.

use crate::fault::EngineFault;
use crate::random::shuffle;
use crate::uno::messages::{Card, BLACK, DRAW_FOUR, WILD};
use rand::rngs::StdRng;
use std::collections::VecDeque;
use vstd::multiset::Multiset;
use vstd::prelude::*;

verus! {

/// The number of cards of the game.
pub const DECK_SIZE: usize = 108;

/// The number of cards of a hand as it is dealt.
pub const HAND_SIZE: usize = 7;

/// The card at `i` of a deck before it is shuffled: of each of the four
/// colours one card with the text zero and two with each other text up to
/// draw-two, and then four wild cards and four wild draw-four cards by turns.
pub open spec fn card_at(i: int) -> Card {
    if i < 100 {
        Card { color: (i / 25) as i32, text: ((i % 25 + 1) / 2) as i32 }
    } else {
        Card {
            color: BLACK,
            text: if i % 2 == 0 {
                WILD
            } else {
                DRAW_FOUR
            },
        }
    }
}

/// The cards of the game, before they are shuffled.
pub open spec fn fresh_deck() -> Seq<Card> {
    Seq::new(DECK_SIZE as nat, |i: int| card_at(i))
}

/// Whether the card is a wild card.
pub open spec fn is_black(card: Card) -> bool {
    card.color == BLACK
}

/// How many of the cards are wild cards.
pub open spec fn blacks(cards: Seq<Card>) -> nat
    decreases cards.len(),
{
    if cards.len() == 0 {
        0
    } else {
        blacks(cards.drop_last()) + if is_black(cards.last()) {
            1nat
        } else {
            0nat
        }
    }
}

/// How many wild cards lie on top of the first card that is none.
pub open spec fn leading_blacks(cards: Seq<Card>) -> nat
    decreases cards.len(),
{
    if cards.len() == 0 || !is_black(cards[0]) {
        0
    } else {
        1 + leading_blacks(cards.skip(1))
    }
}

/// Whether one of the cards is no wild card.
pub open spec fn has_color(cards: Seq<Card>) -> bool {
    leading_blacks(cards) < cards.len()
}

/// No more wild cards than cards.
pub proof fn lemma_blacks_bound(cards: Seq<Card>)
    ensures
        blacks(cards) <= cards.len(),
    decreases cards.len(),
{
    if cards.len() > 0 {
        lemma_blacks_bound(cards.drop_last());
    }
}

/// The wild cards of a pile are those of its upper and of its lower part.
pub proof fn lemma_blacks_split(cards: Seq<Card>, n: int)
    requires
        0 <= n <= cards.len(),
    ensures
        blacks(cards) == blacks(cards.take(n)) + blacks(cards.skip(n)),
    decreases cards.len(),
{
    if n == cards.len() {
        assert(cards.take(n) =~= cards);
        assert(cards.skip(n) =~= Seq::<Card>::empty());
    } else {
        lemma_blacks_split(cards.drop_last(), n);
        assert(cards.drop_last().take(n) =~= cards.take(n));
        assert(cards.drop_last().skip(n) =~= cards.skip(n).drop_last());
        assert(cards.skip(n).last() == cards.last());
    }
}

/// The wild cards of a pile are those of its other cards and the one
/// taken out, if it is one.
pub proof fn lemma_blacks_remove(cards: Seq<Card>, at: int)
    requires
        0 <= at < cards.len(),
    ensures
        blacks(cards) == blacks(cards.remove(at)) + if is_black(cards[at]) {
            1nat
        } else {
            0nat
        },
{
    lemma_blacks_split(cards, at);
    lemma_blacks_split(cards.skip(at), 1);
    lemma_blacks_split(cards.remove(at), at);
    assert(cards.remove(at).take(at) =~= cards.take(at));
    assert(cards.remove(at).skip(at) =~= cards.skip(at).skip(1));
    let one = cards.skip(at).take(1);
    assert(one.drop_last() =~= Seq::<Card>::empty());
    assert(one.last() == cards[at]);
    assert(blacks(one.drop_last()) == 0);
}

/// Shuffling does not change how many wild cards a pile has.
pub proof fn lemma_blacks_shuffled(a: Seq<Card>, b: Seq<Card>)
    requires
        a.to_multiset() == b.to_multiset(),
    ensures
        blacks(a) == blacks(b),
    decreases a.len(),
{
    vstd::seq_lib::to_multiset_len(a);
    vstd::seq_lib::to_multiset_len(b);
    if a.len() > 0 {
        let x = a.last();
        let last = a.len() - 1;
        vstd::seq_lib::to_multiset_contains(a, x);
        vstd::seq_lib::to_multiset_contains(b, x);
        assert(a.contains(x)) by {
            assert(a[last] == x);
        }
        let at = choose|i: int| 0 <= i < b.len() && b[i] == x;
        vstd::seq_lib::to_multiset_remove(a, last);
        vstd::seq_lib::to_multiset_remove(b, at);
        assert(a.remove(last) =~= a.drop_last());
        lemma_blacks_shuffled(a.drop_last(), b.remove(at));
        lemma_blacks_remove(b, at);
    }
}

/// The first hundred cards of a deck before it is shuffled are no wild
/// cards; the others are.
pub proof fn lemma_blacks_fresh(n: int)
    requires
        0 <= n <= DECK_SIZE,
    ensures
        blacks(fresh_deck().take(n)) == if n <= 100 {
            0int
        } else {
            n - 100
        },
    decreases n,
{
    if n > 0 {
        lemma_blacks_fresh(n - 1);
        assert(fresh_deck().take(n).drop_last() =~= fresh_deck().take(n - 1));
        assert(fresh_deck().take(n).last() == card_at(n - 1));
    }
}

/// Where the first `k` cards are wild cards, the wild cards on top of the
/// first other card are these and those that follow them.
pub proof fn lemma_leading_blacks(cards: Seq<Card>, k: int)
    requires
        0 <= k <= cards.len(),
        forall|i: int| 0 <= i < k ==> is_black(#[trigger] cards[i]),
    ensures
        leading_blacks(cards) == k + leading_blacks(cards.skip(k)),
    decreases k,
{
    if k == 0 {
        assert(cards.skip(0) =~= cards);
    } else {
        let rest = cards.skip(1);
        assert forall|i: int| 0 <= i < k - 1 implies is_black(#[trigger] rest[i]) by {
            assert(rest[i] == cards[i + 1]);
        }
        lemma_leading_blacks(rest, k - 1);
        assert(rest.skip(k - 1) =~= cards.skip(k));
    }
}

/// Cards with fewer wild cards than cards have a card that is none.
pub proof fn lemma_has_color(cards: Seq<Card>)
    requires
        blacks(cards) < cards.len(),
    ensures
        has_color(cards),
    decreases cards.len(),
{
    if is_black(cards[0]) {
        lemma_blacks_remove(cards, 0);
        assert(cards.remove(0) =~= cards.skip(1));
        lemma_has_color(cards.skip(1));
    }
}

/// The cards of the hands, whatever hand they are in.
pub open spec fn cards_of(hands: Seq<Vec<Card>>) -> Multiset<Card>
    decreases hands.len(),
{
    if hands.len() == 0 {
        Multiset::empty()
    } else {
        cards_of(hands.drop_last()).add(hands.last()@.to_multiset())
    }
}

/// Hands without cards have no cards.
pub proof fn lemma_cards_of_empty_hands(hands: Seq<Vec<Card>>)
    requires
        forall|p: int| 0 <= p < hands.len() ==> (#[trigger] hands[p])@.len() == 0,
    ensures
        cards_of(hands) == Multiset::<Card>::empty(),
    decreases hands.len(),
{
    broadcast use vstd::multiset::group_multiset_axioms;

    if hands.len() > 0 {
        let rest = hands.drop_last();
        assert forall|p: int| 0 <= p < rest.len() implies (#[trigger] rest[p])@.len() == 0 by {
            assert(rest[p] == hands[p]);
        }
        lemma_cards_of_empty_hands(rest);
        assert(hands.last() == hands[hands.len() - 1]);
        hands.last()@.to_multiset_ensures();
        assert(hands.last()@ =~= Seq::<Card>::empty());
        assert(cards_of(hands) =~= Multiset::<Card>::empty());
    }
}

/// A card more in one hand is a card more among the cards of the hands.
pub proof fn lemma_cards_of_dealt(
    before: Seq<Vec<Card>>,
    after: Seq<Vec<Card>>,
    player: int,
    card: Card,
)
    requires
        0 <= player < before.len(),
        after.len() == before.len(),
        after[player]@ == before[player]@.push(card),
        forall|p: int| 0 <= p < before.len() && p != player ==> after[p] == before[p],
    ensures
        cards_of(after) == cards_of(before).insert(card),
    decreases before.len(),
{
    broadcast use vstd::multiset::group_multiset_axioms;

    let last = before.len() - 1;
    if player == last {
        assert(after.drop_last() =~= before.drop_last());
        vstd::seq_lib::to_multiset_build(before[player]@, card);
        assert(cards_of(after) =~= cards_of(before).insert(card));
    } else {
        lemma_cards_of_dealt(before.drop_last(), after.drop_last(), player, card);
        assert(after.last() == before.last());
        assert(cards_of(after) =~= cards_of(before).insert(card));
    }
}

/// The model of a deck. The top of each pile is its first card.
pub struct DeckView {
    pub pile: Seq<Card>,
    pub discard_pile: Seq<Card>,
}

impl DeckView {
    /// The cards of the deck, whatever pile they are in.
    pub open spec fn cards(self) -> Multiset<Card> {
        self.pile.to_multiset().add(self.discard_pile.to_multiset())
    }

    /// The number of cards of the deck.
    pub open spec fn len(self) -> int {
        (self.pile.len() + self.discard_pile.len()) as int
    }
}

/// The deck of a room.
#[derive(Debug, PartialEq, Eq)]
pub struct Deck {
    pub pile: VecDeque<Card>,
    pub discard_pile: VecDeque<Card>,
}

impl View for Deck {
    type V = DeckView;

    open spec fn view(&self) -> DeckView {
        DeckView { pile: self.pile@, discard_pile: self.discard_pile@ }
    }
}

/// Puts the cards of a pile in an order as likely as any other.
pub fn shuffle_pile(rng: &mut StdRng, pile: &mut VecDeque<Card>)
    ensures
        final(pile)@.to_multiset() == old(pile)@.to_multiset(),
        final(pile)@.len() == old(pile)@.len(),
{
    let mut cards: Vec<Card> = Vec::new();
    while pile.len() > 0
        invariant
            cards@ + pile@ == old(pile)@,
        decreases pile.len(),
    {
        let ghost had = pile@;
        let ghost got = cards@;
        let card = pile.pop_front().unwrap();
        cards.push(card);
        assert(cards@ + pile@ =~= got + had);
    }
    assert(cards@ =~= old(pile)@);
    shuffle(rng, cards.as_mut_slice());
    let ghost shuffled = cards@;
    proof {
        vstd::seq_lib::to_multiset_len(shuffled);
        vstd::seq_lib::to_multiset_len(old(pile)@);
    }
    let mut i: usize = 0;
    while i < cards.len()
        invariant
            cards@ == shuffled,
            0 <= i <= cards.len(),
            pile@ == shuffled.take(i as int),
        decreases cards.len() - i,
    {
        pile.push_back(cards[i]);
        assert(pile@ =~= shuffled.take(i + 1));
        i = i + 1;
    }
    assert(pile@ =~= shuffled);
}

/// A pile is its top and the cards below it.
pub proof fn lemma_top_and_rest(pile: Seq<Card>)
    requires
        pile.len() > 0,
    ensures
        pile.subrange(1, pile.len() as int).to_multiset().insert(pile[0]) == pile.to_multiset(),
{
    vstd::seq_lib::to_multiset_remove(pile, 0);
    assert(pile.remove(0) =~= pile.subrange(1, pile.len() as int));
    assert(pile.to_multiset().count(pile[0]) > 0) by {
        vstd::seq_lib::to_multiset_contains(pile, pile[0]);
        assert(pile.contains(pile[0]));
    }
    assert(pile.to_multiset().remove(pile[0]).insert(pile[0]) =~= pile.to_multiset());
}

impl Deck {
    /// The cards of the game, shuffled, as the pile; no card discarded.
    pub fn new(rng: &mut StdRng) -> (deck: Deck)
        ensures
            deck@.pile.to_multiset() == fresh_deck().to_multiset(),
            deck@.pile.len() == DECK_SIZE,
            deck@.discard_pile.len() == 0,
    {
        let mut deck = Deck { pile: VecDeque::new(), discard_pile: VecDeque::new() };
        deck.init(rng);
        deck
    }

    /// Makes the deck the cards of the game, shuffled, with no card discarded.
    pub fn init(&mut self, rng: &mut StdRng)
        ensures
            final(self)@.pile.to_multiset() == fresh_deck().to_multiset(),
            final(self)@.pile.len() == DECK_SIZE,
            final(self)@.discard_pile.len() == 0,
    {
        self.pile = VecDeque::new();
        self.discard_pile = VecDeque::new();
        let mut color: i32 = 0;
        while color < 4
            invariant
                0 <= color <= 4,
                self.discard_pile@.len() == 0,
                self.pile@ == fresh_deck().take(color * 25),
            decreases 4 - color,
        {
            let mut text: i32 = 0;
            while text < 13
                invariant
                    0 <= color < 4,
                    0 <= text <= 13,
                    self.discard_pile@.len() == 0,
                    self.pile@ == fresh_deck().take(
                        color * 25 + if text == 0 {
                            0int
                        } else {
                            2 * text - 1
                        },
                    ),
                decreases 13 - text,
            {
                let ghost at = color * 25 + if text == 0 {
                    0int
                } else {
                    2 * text - 1
                };
                self.pile.push_back(Card { color, text });
                assert(self.pile@ =~= fresh_deck().take(at + 1));
                if text != 0 {
                    self.pile.push_back(Card { color, text });
                    assert(self.pile@ =~= fresh_deck().take(at + 2));
                }
                text = text + 1;
            }
            color = color + 1;
        }
        let mut wild: i32 = 0;
        while wild < 4
            invariant
                0 <= wild <= 4,
                self.discard_pile@.len() == 0,
                self.pile@ == fresh_deck().take(100 + 2 * wild),
            decreases 4 - wild,
        {
            self.pile.push_back(Card { color: 4, text: 13 });
            assert(self.pile@ =~= fresh_deck().take(100 + 2 * wild + 1));
            self.pile.push_back(Card { color: 4, text: 14 });
            assert(self.pile@ =~= fresh_deck().take(100 + 2 * wild + 2));
            wild = wild + 1;
        }
        assert(self.pile@ =~= fresh_deck());
        shuffle_pile(rng, &mut self.pile);
    }

    /// Draws the top of the pile. Where the pile is exhausted, the discard
    /// pile is shuffled and becomes the pile first. Refused where no card
    /// is left in either.
    pub fn draw(&mut self, rng: &mut StdRng) -> (drawn: Result<Card, EngineFault>)
        ensures
            match drawn {
                Ok(card) => {
                    &&& old(self)@.len() > 0
                    &&& final(self)@.cards().insert(card) == old(self)@.cards()
                    &&& final(self)@.len() == old(self)@.len() - 1
                    &&& old(self)@.pile.len() > 0 ==> {
                        &&& card == old(self)@.pile[0]
                        &&& final(self)@.pile == old(self)@.pile.subrange(
                            1,
                            old(self)@.pile.len() as int,
                        )
                        &&& final(self)@.discard_pile == old(self)@.discard_pile
                    }
                    &&& old(self)@.pile.len() == 0 ==> final(self)@.discard_pile.len() == 0
                },
                Err(fault) => {
                    &&& old(self)@.len() == 0
                    &&& fault == EngineFault::InvariantViolation
                    &&& final(self)@ == old(self)@
                },
            },
    {
        broadcast use vstd::multiset::group_multiset_axioms;

        if self.pile.len() == 0 {
            if self.discard_pile.len() == 0 {
                return Err(EngineFault::InvariantViolation);
            }
            std::mem::swap(&mut self.pile, &mut self.discard_pile);
            shuffle_pile(rng, &mut self.pile);
            assert(self@.discard_pile =~= Seq::<Card>::empty());
            assert(old(self)@.pile =~= Seq::<Card>::empty());
        }
        let ghost before = self@;
        assert(before.cards() =~= old(self)@.cards());
        match self.pile.pop_front() {
            Some(card) => {
                proof {
                    lemma_top_and_rest(before.pile);
                    assert(self@.cards().insert(card) =~= before.cards());
                }
                Ok(card)
            },
            None => {
                assert(false);
                Err(EngineFault::InvariantViolation)
            },
        }
    }

    /// Draws `num` cards, the first one first. Refused, with the deck left
    /// as it is, where `num` is negative and where the deck has fewer cards.
    pub fn draw_num(&mut self, num: i32, rng: &mut StdRng) -> (drawn: Result<
        Vec<Card>,
        EngineFault,
    >)
        ensures
            match drawn {
                Ok(cards) => {
                    &&& 0 <= num <= old(self)@.len()
                    &&& cards@.len() == num
                    &&& cards@.to_multiset().add(final(self)@.cards()) == old(self)@.cards()
                    &&& final(self)@.len() == old(self)@.len() - num
                    &&& num <= old(self)@.pile.len() ==> {
                        &&& cards@ == old(self)@.pile.take(num as int)
                        &&& final(self)@.pile == old(self)@.pile.skip(num as int)
                        &&& final(self)@.discard_pile == old(self)@.discard_pile
                    }
                },
                Err(fault) => {
                    &&& final(self)@ == old(self)@
                    &&& fault == if num < 0 {
                        EngineFault::IllegalOperation
                    } else {
                        EngineFault::InvariantViolation
                    }
                    &&& num < 0 || num > old(self)@.len()
                },
            },
    {
        if num < 0 {
            return Err(EngineFault::IllegalOperation);
        }
        self.draw_many(num as usize, rng)
    }

    /// Draws `wanted` cards, the first one first. Refused, with the deck
    /// left as it is, where the deck has fewer cards.
    pub fn draw_many(&mut self, wanted: usize, rng: &mut StdRng) -> (drawn: Result<
        Vec<Card>,
        EngineFault,
    >)
        ensures
            match drawn {
                Ok(cards) => {
                    &&& wanted <= old(self)@.len()
                    &&& cards@.len() == wanted
                    &&& cards@.to_multiset().add(final(self)@.cards()) == old(self)@.cards()
                    &&& final(self)@.len() == old(self)@.len() - wanted
                    &&& wanted <= old(self)@.pile.len() ==> {
                        &&& cards@ == old(self)@.pile.take(wanted as int)
                        &&& final(self)@.pile == old(self)@.pile.skip(wanted as int)
                        &&& final(self)@.discard_pile == old(self)@.discard_pile
                    }
                },
                Err(fault) => {
                    &&& final(self)@ == old(self)@
                    &&& fault == EngineFault::InvariantViolation
                    &&& wanted > old(self)@.len()
                },
            },
    {
        broadcast use vstd::multiset::group_multiset_axioms;

        if self.pile.len() < wanted && self.discard_pile.len() < wanted - self.pile.len() {
            return Err(EngineFault::InvariantViolation);
        }
        let mut cards: Vec<Card> = Vec::new();
        assert(cards@.to_multiset() =~= Multiset::<Card>::empty()) by {
            cards@.to_multiset_ensures();
        }
        assert(cards@.to_multiset().add(self@.cards()) =~= old(self)@.cards());
        let mut i: usize = 0;
        while i < wanted
            invariant
                0 <= i <= wanted <= old(self)@.len(),
                cards@.len() == i,
                self@.len() == old(self)@.len() - i,
                cards@.to_multiset().add(self@.cards()) == old(self)@.cards(),
                wanted <= old(self)@.pile.len() ==> {
                    &&& cards@ == old(self)@.pile.take(i as int)
                    &&& self@.pile == old(self)@.pile.skip(i as int)
                    &&& self@.discard_pile == old(self)@.discard_pile
                },
            decreases wanted - i,
        {
            let ghost before = self@;
            let ghost had = cards@;
            match self.draw(rng) {
                Ok(card) => {
                    cards.push(card);
                    proof {
                        vstd::seq_lib::to_multiset_build(had, card);
                        assert(cards@.to_multiset().add(self@.cards()) =~= had.to_multiset().add(
                            before.cards(),
                        ));
                        if wanted <= old(self)@.pile.len() {
                            assert(cards@ =~= old(self)@.pile.take(i + 1));
                            assert(self@.pile =~= old(self)@.pile.skip(i + 1));
                        }
                    }
                },
                Err(fault) => {
                    assert(false);
                    return Err(fault);
                },
            }
            i = i + 1;
        }
        Ok(cards)
    }

    /// Deals a hand of seven cards to each of `player_num` players, one
    /// card to each player by turns. Refused, with the deck left as it is,
    /// where the deck has fewer cards than that.
    pub fn deal_init_handcards(&mut self, player_num: usize, rng: &mut StdRng) -> (dealt: Result<
        Vec<Vec<Card>>,
        EngineFault,
    >)
        ensures
            match dealt {
                Ok(hands) => {
                    &&& HAND_SIZE * player_num <= old(self)@.len()
                    &&& hands@.len() == player_num
                    &&& forall|p: int|
                        0 <= p < player_num ==> (#[trigger] hands@[p])@.len() == HAND_SIZE
                    &&& final(self)@.len() == old(self)@.len() - HAND_SIZE * player_num
                    &&& cards_of(hands@).add(final(self)@.cards()) == old(self)@.cards()
                    &&& HAND_SIZE * player_num <= old(self)@.pile.len() ==> {
                        &&& forall|p: int, r: int|
                            0 <= p < player_num && 0 <= r < HAND_SIZE ==> #[trigger] hands@[p]@[r]
                                == old(self)@.pile[r * player_num + p]
                        &&& final(self)@.pile == old(self)@.pile.skip(HAND_SIZE * player_num)
                        &&& final(self)@.discard_pile == old(self)@.discard_pile
                    }
                },
                Err(fault) => {
                    &&& final(self)@ == old(self)@
                    &&& fault == EngineFault::InvariantViolation
                    &&& HAND_SIZE * player_num > old(self)@.len()
                },
            },
    {
        let available = self.pile.len() as u128 + self.discard_pile.len() as u128;
        if 7 * (player_num as u128) > available {
            return Err(EngineFault::InvariantViolation);
        }
        let ghost before = self@;
        let ghost exact = HAND_SIZE * player_num <= before.pile.len();
        let mut hands: Vec<Vec<Card>> = Vec::new();
        let mut player: usize = 0;
        while player < player_num
            invariant
                0 <= player <= player_num,
                hands@.len() == player,
                forall|p: int| 0 <= p < player ==> (#[trigger] hands@[p])@.len() == 0,
            decreases player_num - player,
        {
            hands.push(Vec::new());
            player = player + 1;
        }
        proof {
            broadcast use vstd::multiset::group_multiset_axioms;

            lemma_cards_of_empty_hands(hands@);
            assert(cards_of(hands@).add(self@.cards()) =~= before.cards());
        }
        let mut round: usize = 0;
        while round < 7
            invariant
                0 <= round <= 7,
                7 * player_num <= before.len(),
                exact == (HAND_SIZE * player_num <= before.pile.len()),
                hands@.len() == player_num,
                forall|p: int| 0 <= p < player_num ==> (#[trigger] hands@[p])@.len() == round,
                self@.len() == before.len() - round * player_num,
                cards_of(hands@).add(self@.cards()) == before.cards(),
                exact ==> {
                    &&& self@.pile == before.pile.skip(round * player_num)
                    &&& self@.discard_pile == before.discard_pile
                    &&& forall|p: int, r: int|
                        0 <= p < player_num && 0 <= r < round ==> #[trigger] hands@[p]@[r]
                            == before.pile[r * player_num + p]
                },
            decreases 7 - round,
        {
            let mut player: usize = 0;
            while player < player_num
                invariant
                    0 <= round < 7,
                    0 <= player <= player_num,
                    7 * player_num <= before.len(),
                    exact == (HAND_SIZE * player_num <= before.pile.len()),
                    hands@.len() == player_num,
                    forall|p: int|
                        0 <= p < player_num ==> (#[trigger] hands@[p])@.len() == if p < player {
                            round + 1
                        } else {
                            round as int
                        },
                    self@.len() == before.len() - (round * player_num + player),
                    cards_of(hands@).add(self@.cards()) == before.cards(),
                    exact ==> {
                        &&& self@.pile == before.pile.skip(round * player_num + player)
                        &&& self@.discard_pile == before.discard_pile
                        &&& forall|p: int, r: int|
                            0 <= p < player_num && 0 <= r < round ==> #[trigger] hands@[p]@[r]
                                == before.pile[r * player_num + p]
                        &&& forall|p: int|
                            0 <= p < player ==> (#[trigger] hands@[p])@[round as int]
                                == before.pile[round * player_num + p]
                    },
                decreases player_num - player,
            {
                let ghost at = round * player_num + player;
                assert(0 <= at < 7 * player_num) by (nonlinear_arith)
                    requires
                        0 <= round < 7,
                        0 <= player < player_num,
                        at == round * player_num + player,
                ;
                let ghost pile = self@.pile;
                let ghost dealt = hands@;
                let ghost deck = self@;
                match self.draw(rng) {
                    Ok(card) => {
                        hands[player].push(card);
                        proof {
                            broadcast use vstd::multiset::group_multiset_axioms;

                            lemma_cards_of_dealt(dealt, hands@, player as int, card);
                            assert(cards_of(hands@).add(self@.cards()) =~= cards_of(dealt).add(
                                deck.cards(),
                            ));
                            assert forall|p: int| 0 <= p < player_num implies (
                            #[trigger] hands@[p])@.len() == if p < player + 1 {
                                round + 1
                            } else {
                                round as int
                            } by {
                                if p != player {
                                    assert(hands@[p] == dealt[p]);
                                }
                            }
                            if exact {
                                assert(pile.len() > 0);
                                assert(card == before.pile[at]);
                                assert(self@.pile =~= before.pile.skip(at + 1));
                                assert forall|p: int, r: int|
                                    0 <= p < player_num && 0 <= r < round implies
                                    #[trigger] hands@[p]@[r] == before.pile[r * player_num + p] by {
                                    if p != player {
                                        assert(hands@[p] == dealt[p]);
                                    } else {
                                        assert(hands@[p]@[r] == dealt[p]@[r]);
                                    }
                                }
                                assert forall|p: int| 0 <= p < player + 1 implies (
                                #[trigger] hands@[p])@[round as int] == before.pile[round
                                    * player_num + p] by {
                                    if p != player {
                                        assert(hands@[p] == dealt[p]);
                                    }
                                }
                            }
                        }
                    },
                    Err(fault) => {
                        assert(false);
                        return Err(fault);
                    },
                }
                player = player + 1;
            }
            assert((round + 1) * player_num == round * player_num + player_num) by (nonlinear_arith);
            round = round + 1;
        }
        Ok(hands)
    }

    /// Puts a card below the pile.
    pub fn put_to_bottom(&mut self, card: Card)
        ensures
            final(self)@.pile == old(self)@.pile.push(card),
            final(self)@.discard_pile == old(self)@.discard_pile,
    {
        self.pile.push_back(card);
    }

    /// Puts a card on the discard pile.
    pub fn discard(&mut self, card: Card)
        ensures
            final(self)@.discard_pile == seq![card] + old(self)@.discard_pile,
            final(self)@.pile == old(self)@.pile,
    {
        self.discard_pile.push_front(card);
    }
}

} // verus!
