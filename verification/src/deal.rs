use vstd::prelude::*;
use vstd::set_lib::*;

use rand::rngs::ThreadRng;
use rand::Rng;

use crate::cards::{card_at, is_deck_card, Card, DECK_SIZE, SHAPE_SIZE};
use crate::lobby::Shared;

verus! {

#[verifier::external_type_specification]
#[verifier::external_body]
pub struct ExThreadRng(ThreadRng);

/// Calls `rand::thread_rng`, which hands out the thread's random generator.
/// Nothing is claimed of the generator.
#[verifier::external_body]
fn thread_rng() -> ThreadRng {
    rand::thread_rng()
}

/// Calls `rand::Rng::gen_range` on the range `0..bound`. The claim is the one
/// rand documents: the value drawn lies in the range. The range must not be
/// empty (rand panics on an empty range). Which value comes out is left open.
#[verifier::external_body]
fn gen_range_below(rng: &mut ThreadRng, bound: usize) -> (r: usize)
    requires
        0 < bound,
    ensures
        r < bound,
{
    rng.gen_range(0..bound)
}

/// An order of the deck: each of the card numbers 0 to 52 exactly once.
pub open spec fn is_deal_order(order: Seq<usize>) -> bool {
    &&& order.len() == 53
    &&& forall|i: int| 0 <= i < order.len() ==> order[i] < 53
    &&& order.no_duplicates()
}

/// The `n` cards found at positions `start` to `start + n - 1` of `order`.
pub open spec fn dealt(order: Seq<usize>, start: int, n: int) -> Seq<Card> {
    Seq::new(n as nat, |j: int| card_at(order[start + j] as int))
}

/// The six piles dealt from `order`: five hands of ten cards and the three
/// cards left under the deck.
pub open spec fn deals_from(
    order: Seq<usize>,
    r: (Seq<Card>, Seq<Card>, Seq<Card>, Seq<Card>, Seq<Card>, Seq<Card>),
) -> bool {
    &&& r.0 == dealt(order, 0, 10)
    &&& r.1 == dealt(order, 10, 10)
    &&& r.2 == dealt(order, 20, 10)
    &&& r.3 == dealt(order, 30, 10)
    &&& r.4 == dealt(order, 40, 10)
    &&& r.5 == dealt(order, 50, 3)
}

fn cards_of(order: &Vec<usize>, start: usize, n: usize) -> (r: Vec<Card>)
    requires
        start + n <= order.len(),
    ensures
        r@ == dealt(order@, start as int, n as int),
{
    let mut r: Vec<Card> = Vec::new();
    let mut i: usize = start;
    let end: usize = start + n;
    while i < end
        invariant
            start <= i <= end,
            end == start + n,
            end <= order@.len(),
            r@ == dealt(order@, start as int, (i - start) as int),
        decreases end - i,
    {
        let x = order[i];
        r.push(Card { shape: x / SHAPE_SIZE, num: x % SHAPE_SIZE });
        assert(r@ =~= dealt(order@, start as int, (i + 1 - start) as int));
        i = i + 1;
    }
    r
}

/// Whether `x` occurs in `v`.
fn contains(v: &Vec<usize>, x: usize) -> (r: bool)
    ensures
        r == v@.contains(x),
{
    let mut i: usize = 0;
    while i < v.len()
        invariant
            i <= v@.len(),
            forall|j: int| 0 <= j < i ==> v@[j] != x,
        decreases v@.len() - i,
    {
        if v[i] == x {
            return true;
        }
        i = i + 1;
    }
    false
}

/// The values of a list of distinct numbers under 53 are a subset of 0..53;
/// there are as many of them as the list is long.
proof fn lemma_distinct_values(order: Seq<usize>)
    requires
        forall|i: int| 0 <= i < order.len() ==> order[i] < 53,
        order.no_duplicates(),
    ensures
        ({
            let vals = order.map_values(|x: usize| x as int).to_set();
            &&& vals.finite()
            &&& vals.len() == order.len()
            &&& vals.subset_of(set_int_range(0, 53))
        }),
{
    let ints = order.map_values(|x: usize| x as int);
    assert forall|a: int, b: int| 0 <= a < ints.len() && 0 <= b < ints.len() && a != b implies ints[a]
        != ints[b] by {
        assert(order[a] != order[b]);
    }
    ints.unique_seq_to_set();
}

/// Every number under 53 occurs in a deal order.
proof fn lemma_deal_order_covers(order: Seq<usize>, x: int)
    requires
        is_deal_order(order),
        0 <= x < 53,
    ensures
        exists|j: int| 0 <= j < 53 && order[j] == x,
{
    let ints = order.map_values(|y: usize| y as int);
    lemma_distinct_values(order);
    lemma_int_range(0, 53);
    lemma_subset_equality(ints.to_set(), set_int_range(0, 53));
    assert(set_int_range(0, 53).contains(x));
    assert(ints.to_set().contains(x));
    let j = choose|j: int| 0 <= j < ints.len() && ints[j] == x;
    assert(order[j] == x);
}

/// A list of distinct numbers under 53 that holds every number under 53 has 53 entries.
proof fn lemma_full_order(order: Seq<usize>)
    requires
        forall|i: int| 0 <= i < order.len() ==> order[i] < 53,
        order.no_duplicates(),
        forall|x: usize| x < 53 ==> order.contains(x),
    ensures
        order.len() == 53,
{
    let ints = order.map_values(|y: usize| y as int);
    lemma_distinct_values(order);
    lemma_int_range(0, 53);
    assert forall|x: int| set_int_range(0, 53).contains(x) implies ints.to_set().contains(x) by {
        assert(order.contains(x as usize));
        let j = choose|j: int| 0 <= j < order.len() && order[j] == x as usize;
        assert(ints[j] == x);
    }
    lemma_len_subset(set_int_range(0, 53), ints.to_set());
    lemma_len_subset(ints.to_set(), set_int_range(0, 53));
}

/// The distinct values of `draws`, each where it first occurs: later
/// repeats of a value are skipped.
pub open spec fn first_occurrences(draws: Seq<usize>) -> Seq<usize>
    decreases draws.len(),
{
    if draws.len() == 0 {
        seq![]
    } else {
        let before = first_occurrences(draws.drop_last());
        if before.contains(draws.last()) {
            before
        } else {
            before.push(draws.last())
        }
    }
}

/// The entries of `order` from position `start` on are increasing.
pub open spec fn ascending_from(order: Seq<usize>, start: int) -> bool {
    forall|i: int, j: int| start <= i < j < order.len() ==> order[i] < order[j]
}

/// `order` is the deck order that the draws `draws` (each under 53) give:
/// the distinct draws in order of first occurrence, then the numbers never
/// drawn in increasing order. Drawing stops as soon as all 53 numbers have
/// been drawn, and ends without them only after `u64::MAX` draws.
pub open spec fn order_from_draws(draws: Seq<usize>, order: Seq<usize>) -> bool {
    &&& forall|i: int| 0 <= i < draws.len() ==> draws[i] < 53
    &&& is_deal_order(order)
    &&& order.take(first_occurrences(draws).len() as int) == first_occurrences(draws)
    &&& ascending_from(order, first_occurrences(draws).len() as int)
    &&& first_occurrences(draws).len() == 53 || draws.len() == u64::MAX
    &&& draws.len() > 0 ==> first_occurrences(draws.drop_last()).len() < 53
}

/// Adding a value not yet present keeps a list free of duplicates.
proof fn lemma_push_new_distinct(before: Seq<usize>, x: usize)
    requires
        before.no_duplicates(),
    ensures
        (if before.contains(x) {
            before
        } else {
            before.push(x)
        }).no_duplicates(),
{
    if !before.contains(x) {
        let after = before.push(x);
        assert forall|a: int, b: int|
            0 <= a < after.len() && 0 <= b < after.len() && a != b implies after[a] != after[b] by {
            if a == before.len() as int {
                assert(before[b] == after[b]);
            } else if b == before.len() as int {
                assert(before[a] == after[a]);
            }
        }
    }
}

impl Shared {
    /// Keeps the drawn number `x` at the end of `order` unless it is already there.
    pub fn keep_new_draw(order: &mut Vec<usize>, x: usize)
        ensures
            final(order)@ == if old(order)@.contains(x) {
                old(order)@
            } else {
                old(order)@.push(x)
            },
    {
        if !contains(order, x) {
            order.push(x);
        }
    }

    /// The deal that the draws `draws` give, when all 53 numbers occur among
    /// them: the deck in order of first occurrence of the draws, dealt as by
    /// `deal_by_order`. When some number never occurs, there is none.
    pub fn deal_from_draws(draws: &Vec<usize>) -> (r: Option<
        (Vec<Card>, Vec<Card>, Vec<Card>, Vec<Card>, Vec<Card>, Vec<Card>),
    >)
        requires
            forall|i: int| 0 <= i < draws@.len() ==> draws@[i] < 53,
        ensures
            r is Some <==> first_occurrences(draws@).len() == 53,
            r is Some ==> is_deal_order(first_occurrences(draws@)),
            match r {
                Some(t) => deals_from(
                    first_occurrences(draws@),
                    (t.0@, t.1@, t.2@, t.3@, t.4@, t.5@),
                ),
                None => true,
            },
    {
        let mut order: Vec<usize> = Vec::new();
        let mut i: usize = 0;
        while i < draws.len()
            invariant
                i <= draws@.len(),
                forall|k: int| 0 <= k < draws@.len() ==> draws@[k] < 53,
                order@ == first_occurrences(draws@.take(i as int)),
                forall|k: int| 0 <= k < order@.len() ==> order@[k] < 53,
                order@.no_duplicates(),
            decreases draws@.len() - i,
        {
            assert(draws@.take(i + 1).drop_last() =~= draws@.take(i as int));
            let ghost before = order@;
            Shared::keep_new_draw(&mut order, draws[i]);
            proof {
                lemma_push_new_distinct(before, draws@[i as int]);
            }
            i = i + 1;
        }
        assert(draws@.take(i as int) =~= draws@);
        if order.len() == DECK_SIZE {
            Some(Shared::deal_by_order(&order))
        } else {
            None
        }
    }

    /// A random order of the deck: numbers are drawn uniformly from 0..53
    /// and kept when not drawn before, until all 53 are kept. The drawing
    /// stops after `u64::MAX` draws at the latest (a bound that a run never
    /// meets); the numbers not drawn by then follow in increasing order.
    /// Returns the order and the numbers drawn.
    pub fn shuffled_order() -> (r: (Vec<usize>, Ghost<Seq<usize>>))
        ensures
            order_from_draws(r.1@, r.0@),
    {
        let mut random: Vec<usize> = Vec::new();
        let ghost mut draws: Seq<usize> = Seq::empty();
        let mut budget: u64 = u64::MAX;
        while random.len() < DECK_SIZE && budget > 0
            invariant
                random@.len() <= 53,
                forall|i: int| 0 <= i < random@.len() ==> random@[i] < 53,
                random@.no_duplicates(),
                random@ == first_occurrences(draws),
                forall|i: int| 0 <= i < draws.len() ==> draws[i] < 53,
                draws.len() == u64::MAX - budget,
                draws.len() > 0 ==> first_occurrences(draws.drop_last()).len() < 53,
            decreases budget,
        {
            let mut rng = thread_rng();
            let x: usize = gen_range_below(&mut rng, DECK_SIZE);
            let ghost before = random@;
            let ghost old_draws = draws;
            Shared::keep_new_draw(&mut random, x);
            proof {
                draws = draws.push(x);
                assert(draws.drop_last() =~= old_draws);
                lemma_push_new_distinct(before, x);
                lemma_distinct_values(random@);
                lemma_int_range(0, 53);
                lemma_len_subset(
                    random@.map_values(|y: usize| y as int).to_set(),
                    set_int_range(0, 53),
                );
            }
            budget = budget - 1;
        }
        let ghost fo = random@;
        let mut c: usize = 0;
        while c < DECK_SIZE
            invariant
                c <= 53,
                random@.len() <= 53,
                forall|i: int| 0 <= i < random@.len() ==> random@[i] < 53,
                random@.no_duplicates(),
                random@.len() < 53 ==> forall|x: usize| x < c ==> random@.contains(x),
                fo.len() <= random@.len(),
                random@.take(fo.len() as int) == fo,
                ascending_from(random@, fo.len() as int),
                forall|i: int| fo.len() <= i < random@.len() ==> random@[i] < c,
            decreases 53 - c,
        {
            if random.len() < DECK_SIZE && !contains(&random, c) {
                let ghost before = random@;
                random.push(c);
                proof {
                    assert(random@.take(fo.len() as int) =~= before.take(fo.len() as int));
                    assert forall|x: usize| x <= c implies random@.contains(x) by {
                        if x < c {
                            assert(before.contains(x));
                            let k = choose|k: int| 0 <= k < before.len() && before[k] == x;
                            assert(random@[k] == x);
                        } else {
                            assert(random@[before.len() as int] == x);
                        }
                    }
                }
            }
            c = c + 1;
        }
        proof {
            if random@.len() < 53 {
                lemma_full_order(random@);
            }
        }
        (random, Ghost(draws))
    }

    /// Deals the deck in the order `order`: the card numbered `x` is suit
    /// `x / 13`, rank `x % 13`; positions 0-9, 10-19, 20-29, 30-39 and 40-49
    /// make the five hands, and positions 50-52 the cards under the deck.
    pub fn deal_by_order(order: &Vec<usize>) -> (r: (
        Vec<Card>,
        Vec<Card>,
        Vec<Card>,
        Vec<Card>,
        Vec<Card>,
        Vec<Card>,
    ))
        requires
            order@.len() == 53,
        ensures
            deals_from(order@, (r.0@, r.1@, r.2@, r.3@, r.4@, r.5@)),
    {
        let a1 = cards_of(order, 0, 10);
        let a2 = cards_of(order, 10, 10);
        let a3 = cards_of(order, 20, 10);
        let a4 = cards_of(order, 30, 10);
        let a5 = cards_of(order, 40, 10);
        let a6 = cards_of(order, 50, 3);
        (a1, a2, a3, a4, a5, a6)
    }

    /// Shuffles the deck and deals it: five hands of ten cards and three
    /// cards under the deck, in the layout of `deal_by_order`.
    pub fn divid_cards() -> (r: (Vec<Card>, Vec<Card>, Vec<Card>, Vec<Card>, Vec<Card>, Vec<Card>))
        ensures
            exists|draws: Seq<usize>, order: Seq<usize>|
                order_from_draws(draws, order) && deals_from(
                    order,
                    (r.0@, r.1@, r.2@, r.3@, r.4@, r.5@),
                ),
    {
        let (order, draws) = Shared::shuffled_order();
        let r = Shared::deal_by_order(&order);
        assert(order_from_draws(draws@, order@) && deals_from(
            order@,
            (r.0@, r.1@, r.2@, r.3@, r.4@, r.5@),
        ));
        r
    }
}

/// Dealing from a deck order hands out every card of the deck exactly once:
/// the six piles, put end to end, are the 53 cards dealt in order; they are
/// pairwise distinct, and a card is among them exactly when it is a card of
/// the deck.
pub proof fn lemma_deal_is_partition(order: Seq<usize>)
    requires
        is_deal_order(order),
    ensures
        dealt(order, 0, 10) + dealt(order, 10, 10) + dealt(order, 20, 10) + dealt(order, 30, 10)
            + dealt(order, 40, 10) + dealt(order, 50, 3) == dealt(order, 0, 53),
        dealt(order, 0, 53).no_duplicates(),
        forall|c: Card| #[trigger] dealt(order, 0, 53).contains(c) <==> is_deck_card(c),
{
    let all = dealt(order, 0, 53);
    assert(dealt(order, 0, 10) + dealt(order, 10, 10) + dealt(order, 20, 10) + dealt(order, 30, 10)
        + dealt(order, 40, 10) + dealt(order, 50, 3) =~= all);
    assert forall|a: int, b: int| 0 <= a < all.len() && 0 <= b < all.len() && a != b implies all[a]
        != all[b] by {
        let x = order[a] as int;
        let y = order[b] as int;
        assert(order[a] != order[b]);
        if all[a] == all[b] {
            assert(x / 13 == y / 13 && x % 13 == y % 13);
            assert(x == 13 * (x / 13) + x % 13);
            assert(y == 13 * (y / 13) + y % 13);
        }
    }
    assert forall|c: Card| #[trigger] all.contains(c) <==> is_deck_card(c) by {
        if all.contains(c) {
            let j = choose|j: int| 0 <= j < all.len() && all[j] == c;
            let x = order[j] as int;
            assert(0 <= x < 53);
        }
        if is_deck_card(c) {
            let x = c.shape * 13 + c.num;
            lemma_deal_order_covers(order, x);
            let j = choose|j: int| 0 <= j < 53 && order[j] == x;
            assert(all[j] == c);
        }
    }
}

} // verus!
