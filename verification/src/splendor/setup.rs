//! How a board is set up: the random cards of the tiers and the nobles.

use crate::random::{below, shuffle};
use crate::seqs::views;
use crate::splendor::messages::{
    amount_in, is_requirement, lemma_requirement_absent, lemma_requirement_amount, Development,
    DevelopmentView, Noble, NobleView, ResourceEntry, ResourceMap, GEM_KINDS,
};
use crate::splendor::model::{
    full_ledger, nobles_wf, tier_total, BoardView, LevelView, MAX_CARD_POINTS,
    NOBLE_POINTS, TOTAL_NOBLES, WINDOW,
};
use crate::splendor::state::{BoardState, DevCardsLevelState};
use rand::rngs::StdRng;
use vstd::prelude::*;

verus! {

/// A draw of `count` gem kinds: no kind twice.
pub open spec fn is_draw(draw: Seq<i32>, count: int) -> bool {
    &&& draw.len() == count
    &&& draw.no_duplicates()
    &&& forall|i: int| 0 <= i < draw.len() ==> 0 <= #[trigger] draw[i] < GEM_KINDS
}

/// The entries that pair the first `count` kinds of `kinds` with the first
/// `count` numbers of `numbers`.
pub open spec fn paired(kinds: Seq<i32>, numbers: Seq<i32>, count: int) -> Seq<ResourceEntry> {
    Seq::new(
        count as nat,
        |i: int| ResourceEntry { resource_type: kinds[i], number: numbers[i] },
    )
}

/// The noble that asks for `numbers` of `kinds`.
pub open spec fn noble_of(kinds: Seq<i32>, numbers: Seq<i32>) -> NobleView {
    NobleView { capital: paired(kinds, numbers, numbers.len() as int), points: NOBLE_POINTS }
}

/// The card made of a draw and a template: all but the last kind and number
/// are its price, the last kind is the gem that it yields, the last number
/// its points.
pub open spec fn dev_of(kinds: Seq<i32>, numbers: Seq<i32>) -> DevelopmentView {
    DevelopmentView {
        price: paired(kinds, numbers, numbers.len() - 1),
        resource_type: kinds.last(),
        points: numbers.last(),
    }
}

/// A template gives the numbers of a card: at most one for each gem kind,
/// none negative, the last one the points.
pub open spec fn is_template(numbers: Seq<i32>) -> bool {
    &&& 1 <= numbers.len() <= GEM_KINDS
    &&& forall|i: int| 0 <= i < numbers.len() ==> #[trigger] numbers[i] >= 0
    &&& numbers.last() <= MAX_CARD_POINTS
}

/// Whether the card is made of one of the templates and some draw of kinds.
pub open spec fn drawn_from(card: DevelopmentView, templates: Seq<Seq<i32>>) -> bool {
    exists|k: int, draw: Seq<i32>|
        0 <= k < templates.len() && #[trigger] is_draw(draw, templates[k].len() as int) && card
            == dev_of(draw, templates[k])
}

/// Entries paired from a draw are a requirement.
pub proof fn lemma_paired_requirement(kinds: Seq<i32>, numbers: Seq<i32>, count: int)
    requires
        is_draw(kinds, kinds.len() as int),
        0 <= count <= kinds.len(),
        count <= numbers.len(),
        forall|i: int| 0 <= i < numbers.len() ==> #[trigger] numbers[i] >= 0,
    ensures
        is_requirement(paired(kinds, numbers, count)),
{
    let entries = paired(kinds, numbers, count);
    assert forall|i: int, j: int| 0 <= i < j < entries.len() implies (
    #[trigger] entries[i]).resource_type != (#[trigger] entries[j]).resource_type by {
        assert(kinds[i] != kinds[j]);
    }
}

/// Draws `num` different numbers from `min..=max`, each choice as likely as
/// any other, in an order as likely as any other.
pub fn get_multi_rand_nums(rng: &mut StdRng, num: usize, min: i32, max: i32) -> (nums: Vec<i32>)
    requires
        min <= max,
        num <= max - min + 1,
    ensures
        nums@.len() == num,
        nums@.no_duplicates(),
        forall|i: int| 0 <= i < nums@.len() ==> min <= #[trigger] nums@[i] <= max,
{
    let mut nums: Vec<i32> = Vec::new();
    let mut next: i32 = min;
    loop
        invariant_except_break
            min <= next <= max,
            nums@.len() == next - min,
            forall|i: int| 0 <= i < nums@.len() ==> #[trigger] nums@[i] == min + i,
        ensures
            nums@.len() == max - min + 1,
            forall|i: int| 0 <= i < nums@.len() ==> #[trigger] nums@[i] == min + i,
        decreases max - next,
    {
        nums.push(next);
        if next == max {
            break ;
        }
        next = next + 1;
    }
    let ghost sorted = nums@;
    shuffle(rng, nums.as_mut_slice());
    proof {
        broadcast use vstd::seq_lib::to_multiset_contains;

        assert(sorted.no_duplicates());
        sorted.lemma_multiset_has_no_duplicates();
        nums@.lemma_multiset_has_no_duplicates_conv();
        vstd::seq_lib::to_multiset_len(sorted);
        vstd::seq_lib::to_multiset_len(nums@);
        assert forall|i: int| 0 <= i < nums@.len() implies min <= #[trigger] nums@[i] <= max by {
            assert(nums@.contains(nums@[i]));
            assert(nums@.to_multiset().count(nums@[i]) > 0);
            assert(sorted.contains(nums@[i]));
        }
    }
    nums.truncate(num);
    nums
}

/// The noble that asks for `numbers[i]` of the kind `rands[i]`.
pub fn get_a_rand_noble(rands: Vec<i32>, numbers: Vec<i32>) -> (noble: Noble)
    requires
        rands@.len() == numbers@.len(),
    ensures
        noble@ == noble_of(rands@, numbers@),
{
    let mut entries: Vec<ResourceEntry> = Vec::new();
    let mut i: usize = 0;
    while i < numbers.len()
        invariant
            rands@.len() == numbers@.len(),
            0 <= i <= numbers.len(),
            entries@ == paired(rands@, numbers@, i as int),
        decreases numbers.len() - i,
    {
        entries.push(ResourceEntry { resource_type: rands[i], number: numbers[i] });
        assert(entries@ =~= paired(rands@, numbers@, i + 1));
        i = i + 1;
    }
    Noble { capital: ResourceMap { entries }, points: 3 }
}

/// The card made of a draw of kinds and a template of numbers.
pub fn get_a_rand_dev(rands: Vec<i32>, numbers: &Vec<i32>) -> (card: Development)
    requires
        rands@.len() == numbers@.len(),
        numbers@.len() >= 1,
    ensures
        card@ == dev_of(rands@, numbers@),
{
    let mut entries: Vec<ResourceEntry> = Vec::new();
    let mut i: usize = 0;
    while i < numbers.len() - 1
        invariant
            rands@.len() == numbers@.len(),
            numbers@.len() >= 1,
            0 <= i <= numbers.len() - 1,
            entries@ == paired(rands@, numbers@, i as int),
        decreases numbers.len() - i,
    {
        entries.push(ResourceEntry { resource_type: rands[i], number: numbers[i] });
        assert(entries@ =~= paired(rands@, numbers@, i + 1));
        i = i + 1;
    }
    Development {
        price: ResourceMap { entries },
        resource_type: rands[rands.len() - 1],
        points: numbers[numbers.len() - 1],
    }
}

/// A card made of a template and a draw is well formed.
pub proof fn lemma_dev_of_wf(kinds: Seq<i32>, numbers: Seq<i32>)
    requires
        is_template(numbers),
        is_draw(kinds, numbers.len() as int),
    ensures
        dev_of(kinds, numbers).wf(),
        dev_of(kinds, numbers).points <= MAX_CARD_POINTS,
{
    lemma_paired_requirement(kinds, numbers, numbers.len() - 1);
}

/// Makes `num` cards, each of a template picked at random and of a random
/// draw of as many gem kinds as the template has numbers.
pub fn get_rand_devs(rng: &mut StdRng, templates: &Vec<Vec<i32>>, num: usize) -> (cards: Vec<
    Development,
>)
    requires
        templates@.len() > 0,
        forall|k: int| 0 <= k < templates@.len() ==> is_template(#[trigger] templates@[k]@),
    ensures
        cards@.len() == num,
        forall|i: int|
            0 <= i < num ==> drawn_from(#[trigger] views(cards@)[i], views(templates@)),
        forall|i: int|
            0 <= i < num ==> (#[trigger] views(cards@)[i]).wf() && views(cards@)[i].points
                <= MAX_CARD_POINTS,
{
    let mut cards: Vec<Development> = Vec::new();
    let mut made: usize = 0;
    while made < num
        invariant
            templates@.len() > 0,
            forall|k: int| 0 <= k < templates@.len() ==> is_template(#[trigger] templates@[k]@),
            0 <= made <= num,
            cards@.len() == made,
            forall|i: int|
                0 <= i < made ==> drawn_from(#[trigger] views(cards@)[i], views(templates@)),
            forall|i: int|
                0 <= i < made ==> (#[trigger] views(cards@)[i]).wf() && views(cards@)[i].points
                    <= MAX_CARD_POINTS,
        decreases num - made,
    {
        let index = below(rng, templates.len());
        let numbers = &templates[index];
        assert(is_template(templates@[index as int]@));
        let rands = get_multi_rand_nums(rng, numbers.len(), 0, 4);
        let ghost draw = rands@;
        let card = get_a_rand_dev(rands, numbers);
        proof {
            assert(is_draw(draw, numbers@.len() as int));
            assert(views(templates@)[index as int] == numbers@);
            assert(drawn_from(card@, views(templates@)));
            lemma_dev_of_wf(draw, numbers@);
        }
        let ghost before = views(cards@);
        cards.push(card);
        assert(views(cards@) =~= before.push(card@));
        made = made + 1;
    }
    cards
}

/// The templates of the cards of a tier.
pub open spec fn level_templates(tier: int) -> Seq<Seq<i32>> {
    if tier == 0 {
        seq![seq![1i32, 1, 1, 1, 0], seq![1i32, 1, 2, 0], seq![2i32, 2, 0]]
    } else if tier == 1 {
        seq![
            seq![2i32, 2, 2, 1],
            seq![1i32, 4, 1],
            seq![2i32, 3, 1],
            seq![5i32, 2],
            seq![2i32, 4, 2],
            seq![3i32, 3, 1, 2],
            seq![2i32, 2, 2, 2, 2],
            seq![3i32, 2, 2, 2],
        ]
    } else {
        seq![
            seq![6i32, 3],
            seq![2i32, 5, 3],
            seq![2i32, 3, 4, 3],
            seq![3i32, 3, 3, 3, 3],
            seq![7i32, 4],
            seq![2i32, 6, 4],
            seq![3i32, 3, 5, 4],
            seq![4i32, 4, 4, 4, 4],
            seq![8i32, 5],
            seq![2i32, 7, 5],
            seq![4i32, 4, 6, 5],
            seq![4i32, 5, 5, 5, 5],
        ]
    }
}

/// A tier as it is dealt: a full window over a deck, with every card made
/// of one of the tier's templates.
pub open spec fn is_fresh_level(level: LevelView, tier: int) -> bool {
    &&& level.wf()
    &&& level.cards_on_board.len() == WINDOW
    &&& level.size() == tier_total(tier)
    &&& forall|i: int|
        0 <= i < level.deck.len() ==> drawn_from(#[trigger] level.deck[i], level_templates(tier))
    &&& forall|i: int|
        0 <= i < level.cards_on_board.len() ==> drawn_from(
            #[trigger] level.cards_on_board[i],
            level_templates(tier),
        )
}

impl DevCardsLevelState {
    /// Deals `num` cards of the templates: the last four face up, the others
    /// as the deck below them.
    fn deal(rng: &mut StdRng, templates: &Vec<Vec<i32>>, num: usize) -> (level:
        DevCardsLevelState)
        requires
            templates@.len() > 0,
            forall|k: int| 0 <= k < templates@.len() ==> is_template(#[trigger] templates@[k]@),
            WINDOW <= num <= 40,
        ensures
            level@.wf(),
            level@.cards_on_board.len() == WINDOW,
            level@.size() == num,
            forall|i: int|
                0 <= i < level@.deck.len() ==> drawn_from(
                    #[trigger] level@.deck[i],
                    views(templates@),
                ),
            forall|i: int|
                0 <= i < level@.cards_on_board.len() ==> drawn_from(
                    #[trigger] level@.cards_on_board[i],
                    views(templates@),
                ),
    {
        let mut deck = get_rand_devs(rng, templates, num);
        let ghost all = views(deck@);
        let cards_on_board = deck.split_off(deck.len() - 4);
        let level = DevCardsLevelState { deck, cards_on_board };
        proof {
            assert forall|i: int| 0 <= i < level@.deck.len() implies #[trigger] level@.deck[i]
                == all[i] by {}
            assert forall|i: int| 0 <= i < level@.cards_on_board.len() implies
                #[trigger] level@.cards_on_board[i] == all[num - 4 + i] by {}
        }
        level
    }

    /// The lowest tier as it is dealt: forty cards.
    pub fn new_level1(rng: &mut StdRng) -> (level: DevCardsLevelState)
        ensures
            is_fresh_level(level@, 0),
    {
        let templates: Vec<Vec<i32>> = vec![vec![1, 1, 1, 1, 0], vec![1, 1, 2, 0], vec![2, 2, 0]];
        assert(views(templates@) =~~= level_templates(0));
        DevCardsLevelState::deal(rng, &templates, 40)
    }

    /// The middle tier as it is dealt: thirty cards.
    pub fn new_level2(rng: &mut StdRng) -> (level: DevCardsLevelState)
        ensures
            is_fresh_level(level@, 1),
    {
        let templates: Vec<Vec<i32>> = vec![
            vec![2, 2, 2, 1],
            vec![1, 4, 1],
            vec![2, 3, 1],
            vec![5, 2],
            vec![2, 4, 2],
            vec![3, 3, 1, 2],
            vec![2, 2, 2, 2, 2],
            vec![3, 2, 2, 2],
        ];
        assert(views(templates@) =~~= level_templates(1));
        DevCardsLevelState::deal(rng, &templates, 30)
    }

    /// The highest tier as it is dealt: twenty cards.
    pub fn new_level3(rng: &mut StdRng) -> (level: DevCardsLevelState)
        ensures
            is_fresh_level(level@, 2),
    {
        let templates: Vec<Vec<i32>> = vec![
            vec![6, 3],
            vec![2, 5, 3],
            vec![2, 3, 4, 3],
            vec![3, 3, 3, 3, 3],
            vec![7, 4],
            vec![2, 6, 4],
            vec![3, 3, 5, 4],
            vec![4, 4, 4, 4, 4],
            vec![8, 5],
            vec![2, 7, 5],
            vec![4, 4, 6, 5],
            vec![4, 5, 5, 5, 5],
        ];
        assert(views(templates@) =~~= level_templates(2));
        DevCardsLevelState::deal(rng, &templates, 20)
    }
}

/// The numbers of a noble that asks for `each` of `kinds` gem kinds.
pub open spec fn repeated(each: i32, kinds: int) -> Seq<i32> {
    Seq::new(kinds as nat, |i: int| each)
}

/// Whether the noble asks for `each` of `kinds` different gem kinds.
pub open spec fn has_shape(noble: NobleView, kinds: int, each: i32) -> bool {
    exists|draw: Seq<i32>| #[trigger]
        is_draw(draw, kinds) && noble == noble_of(draw, repeated(each, kinds))
}

/// The nobles of a room: three that ask for three of three kinds and two
/// that ask for four of two kinds, no two of them asking for the same.
pub open spec fn is_noble_set(nobles: Seq<NobleView>) -> bool {
    &&& nobles.len() == TOTAL_NOBLES
    &&& forall|i: int|
        0 <= i < nobles.len() ==> if i < 3 {
            has_shape(#[trigger] nobles[i], 3, 3)
        } else {
            has_shape(nobles[i], 2, 4)
        }
    &&& forall|i: int, j: int|
        0 <= i < j < nobles.len() ==> !(#[trigger] nobles[i]).same_capital(#[trigger] nobles[j])
}

/// A noble of a shape is well formed.
pub proof fn lemma_shape_wf(noble: NobleView, kinds: int, each: i32)
    requires
        has_shape(noble, kinds, each),
        each >= 0,
        0 <= kinds,
    ensures
        noble.wf(),
        noble.points == NOBLE_POINTS,
{
    let draw = choose|draw: Seq<i32>| #[trigger]
        is_draw(draw, kinds) && noble == noble_of(draw, repeated(each, kinds));
    lemma_paired_requirement(draw, repeated(each, kinds), kinds);
}

impl ResourceMap {
    /// What a requirement asks of `kind`.
    pub fn amount_of(&self, kind: i32) -> (amount: i32)
        requires
            is_requirement(self@),
        ensures
            amount == amount_in(self@, kind as int),
    {
        let mut i: usize = 0;
        while i < self.entries.len()
            invariant
                is_requirement(self@),
                0 <= i <= self.entries.len(),
                forall|k: int| 0 <= k < i ==> (#[trigger] self@[k]).resource_type != kind,
            decreases self.entries.len() - i,
        {
            if self.entries[i].resource_type == kind {
                proof {
                    lemma_requirement_amount(self@, i as int);
                }
                return self.entries[i].number;
            }
            i = i + 1;
        }
        proof {
            lemma_requirement_absent(self@, kind as int);
        }
        0
    }
}

impl Noble {
    /// Whether two nobles ask for the same amount of every gem kind.
    pub fn same_capital(&self, other: &Noble) -> (same: bool)
        requires
            self@.wf(),
            other@.wf(),
        ensures
            same == self@.same_capital(other@),
    {
        let mut kind: i32 = 0;
        while kind < 5
            invariant
                self@.wf(),
                other@.wf(),
                0 <= kind <= 5,
                forall|k: int|
                    0 <= k < kind ==> #[trigger] amount_in(self@.capital, k) == amount_in(
                        other@.capital,
                        k,
                    ),
            decreases 5 - kind,
        {
            if self.capital.amount_of(kind) != other.capital.amount_of(kind) {
                return false;
            }
            kind = kind + 1;
        }
        true
    }
}

/// Whether none of the nobles asks for the same as `noble`.
pub fn is_new_noble(nobles: &Vec<Noble>, noble: &Noble) -> (is_new: bool)
    requires
        nobles_wf(views(nobles@)),
        noble@.wf(),
    ensures
        is_new == forall|j: int|
            0 <= j < nobles@.len() ==> !(#[trigger] views(nobles@)[j]).same_capital(noble@),
{
    let mut j: usize = 0;
    while j < nobles.len()
        invariant
            nobles_wf(views(nobles@)),
            noble@.wf(),
            0 <= j <= nobles.len(),
            forall|k: int| 0 <= k < j ==> !(#[trigger] views(nobles@)[k]).same_capital(noble@),
        decreases nobles.len() - j,
    {
        assert(views(nobles@)[j as int].wf());
        if nobles[j].same_capital(noble) {
            assert(views(nobles@)[j as int].same_capital(noble@));
            return false;
        }
        j = j + 1;
    }
    true
}

/// The noble that asks for `each` of every one of `kinds`.
fn noble_asking(kinds: Vec<i32>, each: i32) -> (noble: Noble)
    requires
        is_draw(kinds@, kinds@.len() as int),
        each >= 0,
    ensures
        has_shape(noble@, kinds@.len() as int, each),
        noble@ == noble_of(kinds@, repeated(each, kinds@.len() as int)),
{
    let mut numbers: Vec<i32> = Vec::new();
    let mut i: usize = 0;
    while i < kinds.len()
        invariant
            0 <= i <= kinds.len(),
            numbers@ == repeated(each, i as int),
        decreases kinds.len() - i,
    {
        numbers.push(each);
        assert(numbers@ =~= repeated(each, i + 1));
        i = i + 1;
    }
    get_a_rand_noble(kinds, numbers)
}

/// Five nobles that differ from each other, for the case that chance does
/// not find five.
pub fn standard_nobles() -> (nobles: Vec<Noble>)
    ensures
        is_noble_set(views(nobles@)),
{
    let first = noble_asking(vec![0, 1, 2], 3);
    let second = noble_asking(vec![1, 2, 3], 3);
    let third = noble_asking(vec![2, 3, 4], 3);
    let fourth = noble_asking(vec![0, 1], 4);
    let fifth = noble_asking(vec![2, 3], 4);
    proof {
        reveal_with_fuel(amount_in, 4);
        assert(amount_in(first@.capital, 0) == 3);
        assert(amount_in(second@.capital, 0) == 0);
        assert(amount_in(third@.capital, 0) == 0);
        assert(amount_in(fourth@.capital, 0) == 4);
        assert(amount_in(fifth@.capital, 0) == 0);
        assert(amount_in(second@.capital, 1) == 3);
        assert(amount_in(third@.capital, 1) == 0);
        assert(amount_in(fifth@.capital, 1) == 0);
        assert(amount_in(third@.capital, 2) == 3);
        assert(amount_in(fifth@.capital, 2) == 4);
    }
    let nobles: Vec<Noble> = vec![first, second, third, fourth, fifth];
    assert(views(nobles@) =~= seq![first@, second@, third@, fourth@, fifth@]);
    nobles
}

impl BoardState {
    /// Draws the five nobles of a room. A draw that asks for the same as a
    /// noble already drawn is made again. Should sixty-four draws in a row
    /// be refused, which chance all but excludes, the nobles are the five of
    /// `standard_nobles`.
    pub fn rand_nobles(rng: &mut StdRng) -> (nobles: Vec<Noble>)
        ensures
            is_noble_set(views(nobles@)),
    {
        let mut nobles: Vec<Noble> = Vec::new();
        let mut i: usize = 0;
        while i < 5
            invariant
                0 <= i <= 5,
                nobles@.len() == i,
                forall|k: int|
                    0 <= k < i ==> if k < 3 {
                        has_shape(#[trigger] views(nobles@)[k], 3, 3)
                    } else {
                        has_shape(views(nobles@)[k], 2, 4)
                    },
                forall|k: int, j: int|
                    0 <= k < j < i ==> !(#[trigger] views(nobles@)[k]).same_capital(
                        #[trigger] views(nobles@)[j],
                    ),
            decreases 5 - i,
        {
            let kinds: usize = if i < 3 {
                3
            } else {
                2
            };
            let each: i32 = if i < 3 {
                3
            } else {
                4
            };
            let ghost before = views(nobles@);
            proof {
                assert forall|k: int| 0 <= k < before.len() implies (#[trigger] before[k]).wf()
                    && before[k].points <= NOBLE_POINTS by {
                    if k < 3 {
                        lemma_shape_wf(before[k], 3, 3);
                    } else {
                        lemma_shape_wf(before[k], 2, 4);
                    }
                }
            }
            let mut attempts: usize = 0;
            let mut accepted = false;
            while attempts < 64 && !accepted
                invariant
                    0 <= i < 5,
                    kinds == if i < 3 {
                        3usize
                    } else {
                        2usize
                    },
                    each == if i < 3 {
                        3i32
                    } else {
                        4i32
                    },
                    nobles_wf(before),
                    before.len() == i,
                    !accepted ==> views(nobles@) == before,
                    accepted ==> {
                        &&& views(nobles@).len() == i + 1
                        &&& views(nobles@).drop_last() == before
                        &&& has_shape(views(nobles@).last(), kinds as int, each)
                        &&& forall|k: int|
                            0 <= k < i ==> !(#[trigger] before[k]).same_capital(
                                views(nobles@).last(),
                            )
                    },
                    0 <= attempts <= 64,
                decreases 64 - attempts,
            {
                let rands = get_multi_rand_nums(rng, kinds, 0, 4);
                let noble = noble_asking(rands, each);
                proof {
                    lemma_shape_wf(noble@, kinds as int, each);
                }
                if is_new_noble(&nobles, &noble) {
                    nobles.push(noble);
                    accepted = true;
                    assert(views(nobles@) =~= before.push(noble@));
                    assert(views(nobles@).drop_last() =~= before);
                }
                attempts = attempts + 1;
            }
            if !accepted {
                return standard_nobles();
            }
            proof {
                let after = views(nobles@);
                assert forall|k: int| 0 <= k < i + 1 implies if k < 3 {
                    has_shape(#[trigger] after[k], 3, 3)
                } else {
                    has_shape(after[k], 2, 4)
                } by {
                    if k < i {
                        assert(after[k] == before[k]);
                    }
                }
                assert forall|k: int, j: int| 0 <= k < j < i + 1 implies !(
                #[trigger] after[k]).same_capital(#[trigger] after[j]) by {
                    assert(after[k] == before[k]);
                    if j < i {
                        assert(after[j] == before[j]);
                    }
                }
            }
            i = i + 1;
        }
        nobles
    }

    /// A board as it is set up: the three tiers dealt, every token on the
    /// board, five nobles.
    pub fn new(rng: &mut StdRng) -> (board: BoardState)
        ensures
            is_fresh_board(board@),
    {
        let level1 = DevCardsLevelState::new_level1(rng);
        let level2 = DevCardsLevelState::new_level2(rng);
        let level3 = DevCardsLevelState::new_level3(rng);
        let dev_cards: Vec<DevCardsLevelState> = vec![level1, level2, level3];
        assert(views(dev_cards@) =~= seq![level1@, level2@, level3@]);
        let resources_on_board = ResourceMap {
            entries: vec![
                ResourceEntry { resource_type: 0, number: 7 },
                ResourceEntry { resource_type: 1, number: 7 },
                ResourceEntry { resource_type: 2, number: 7 },
                ResourceEntry { resource_type: 3, number: 7 },
                ResourceEntry { resource_type: 4, number: 7 },
                ResourceEntry { resource_type: 5, number: 5 },
            ],
        };
        assert(resources_on_board@ =~= full_ledger());
        let nobles_on_board = BoardState::rand_nobles(rng);
        proof {
            let nobles = views(nobles_on_board@);
            assert forall|k: int| 0 <= k < nobles.len() implies (#[trigger] nobles[k]).wf()
                && nobles[k].points <= NOBLE_POINTS by {
                if k < 3 {
                    lemma_shape_wf(nobles[k], 3, 3);
                } else {
                    lemma_shape_wf(nobles[k], 2, 4);
                }
            }
        }
        BoardState { dev_cards, resources_on_board, nobles_on_board }
    }
}

/// A board as it is set up.
pub open spec fn is_fresh_board(board: BoardView) -> bool {
    &&& board.wf()
    &&& forall|tier: int| 0 <= tier < 3 ==> is_fresh_level(#[trigger] board.dev_cards[tier], tier)
    &&& board.resources_on_board == full_ledger()
    &&& is_noble_set(board.nobles_on_board)
}

} // verus!
