use vstd::prelude::*;

use crate::cards::{Card, BACKRUN_NUM, JOKER_SHAPE, LEAST_EAT_NUM, LEAST_SCORE_NUM, NO_KIRUDA_SHAPE};
use crate::lobby::Shared;
use crate::table::Player;

verus! {

/// The number of point cards (rank above 8: jack, queen, king, ace) in `s`.
pub open spec fn point_count(s: Seq<Card>) -> nat
    decreases s.len(),
{
    if s.len() == 0 {
        0
    } else {
        point_count(s.drop_last()) + if s.last().num > 8 {
            1nat
        } else {
            0nat
        }
    }
}

/// The taken cards that are listed after each round: the suit cards from
/// the ten up, in the order they were taken.
pub open spec fn shown_cards(s: Seq<Card>) -> Seq<Card>
    decreases s.len(),
{
    if s.len() == 0 {
        seq![]
    } else {
        let before = shown_cards(s.drop_last());
        if s.last().shape != JOKER_SHAPE && s.last().num >= LEAST_SCORE_NUM {
            before.push(s.last())
        } else {
            before
        }
    }
}

/// Whether the president's side made its contract.
pub open spec fn contract_made(score1: usize, musteatnum: usize) -> bool {
    score1 >= musteatnum
}

/// The stake of a game: when the contract is made, the points over 14 plus
/// twice the contract over 14, doubled without trump; otherwise the points
/// missing, doubled when the side took 10 points or fewer.
pub open spec fn stake(score1: usize, musteatnum: usize, kiruda: usize) -> int {
    if contract_made(score1, musteatnum) {
        ((score1 - LEAST_EAT_NUM) + (musteatnum - LEAST_EAT_NUM) * 2) * (if kiruda
            == NO_KIRUDA_SHAPE {
            2int
        } else {
            1int
        })
    } else {
        (musteatnum - score1) * (if score1 <= BACKRUN_NUM {
            2int
        } else {
            1int
        })
    }
}

/// The score of seat `i` after the game. When the contract is made the
/// president gains twice the stake (four times when it is its own partner),
/// the partner gains the stake and each other player loses it; otherwise
/// the gains and losses are reversed.
pub open spec fn settled_score(
    score: Seq<usize>,
    i: int,
    score1: usize,
    musteatnum: usize,
    kiruda: usize,
    jugongnum: int,
    friendnum: int,
) -> int {
    let st = stake(score1, musteatnum, kiruda);
    let gain = if i == jugongnum {
        if jugongnum == friendnum {
            4 * st
        } else {
            2 * st
        }
    } else if i == friendnum {
        st
    } else {
        -st
    };
    if contract_made(score1, musteatnum) {
        score[i] + gain
    } else {
        score[i] - gain
    }
}

/// The inputs on which settling a game stays within machine numbers: a made
/// contract is at least 14, the stake fits, and so does every new score.
pub open spec fn settle_defined(
    score: Seq<usize>,
    score1: usize,
    musteatnum: usize,
    kiruda: usize,
    jugongnum: int,
    friendnum: int,
) -> bool {
    &&& contract_made(score1, musteatnum) ==> musteatnum >= LEAST_EAT_NUM
    &&& stake(score1, musteatnum, kiruda) <= usize::MAX
    &&& forall|i: int|
        0 <= i < 5 ==> 0 <= #[trigger] settled_score(
            score,
            i,
            score1,
            musteatnum,
            kiruda,
            jugongnum,
            friendnum,
        ) <= usize::MAX
}

/// `w` is the first seat with a highest score.
pub open spec fn first_highest(score: Seq<usize>, w: int) -> bool {
    &&& 0 <= w < score.len()
    &&& forall|i: int| 0 <= i < score.len() ==> score[i] <= score[w]
    &&& forall|i: int| 0 <= i < w ==> score[i] < score[w]
}

fn count_points(s: &Vec<Card>) -> (n: usize)
    ensures
        n == point_count(s@),
        n <= s@.len(),
{
    let mut n: usize = 0;
    let mut i: usize = 0;
    while i < s.len()
        invariant
            i <= s@.len(),
            n == point_count(s@.take(i as int)),
            n <= i,
        decreases s@.len() - i,
    {
        assert(s@.take(i + 1).drop_last() =~= s@.take(i as int));
        if s[i].num > 8 {
            n = n + 1;
        }
        i = i + 1;
    }
    assert(s@.take(i as int) =~= s@);
    n
}

impl Shared {
    /// The points of the president's side: the point cards taken by the
    /// president and those taken by its partner (counted twice when the
    /// president is its own partner).
    pub fn score_calc(jugong: &Player, friend: &Player) -> (score: usize)
        requires
            jugong.card_eaten@.len() + friend.card_eaten@.len() <= usize::MAX,
        ensures
            score == point_count(jugong.card_eaten@) + point_count(friend.card_eaten@),
    {
        let a = count_points(&jugong.card_eaten);
        let b = count_points(&friend.card_eaten);
        a + b
    }

    /// The taken cards of one player that are listed after a round.
    pub fn shown_cards(eaten: &Vec<Card>) -> (r: Vec<Card>)
        ensures
            r@ == shown_cards(eaten@),
    {
        let mut r: Vec<Card> = Vec::new();
        let mut i: usize = 0;
        while i < eaten.len()
            invariant
                i <= eaten@.len(),
                r@ == shown_cards(eaten@.take(i as int)),
            decreases eaten@.len() - i,
        {
            assert(eaten@.take(i + 1).drop_last() =~= eaten@.take(i as int));
            if eaten[i].shape != JOKER_SHAPE && eaten[i].num >= LEAST_SCORE_NUM {
                r.push(eaten[i].copy());
            }
            i = i + 1;
        }
        assert(eaten@.take(i as int) =~= eaten@);
        r
    }

    /// The cards listed for each seat after a round: none for the president
    /// and its partner, the shown cards of the others.
    pub fn show_eaten(player_list: &Vec<Player>, jugong: usize, friend: usize) -> (r: Vec<Vec<Card>>)
        ensures
            r@.len() == player_list@.len(),
            forall|i: int|
                0 <= i < player_list@.len() ==> (#[trigger] r@[i])@ == if i == jugong || i == friend {
                    Seq::<Card>::empty()
                } else {
                    shown_cards(player_list@[i].card_eaten@)
                },
    {
        let mut r: Vec<Vec<Card>> = Vec::new();
        let mut i: usize = 0;
        while i < player_list.len()
            invariant
                i <= player_list@.len(),
                r@.len() == i,
                forall|k: int|
                    0 <= k < i ==> (#[trigger] r@[k])@ == if k == jugong || k == friend {
                        Seq::<Card>::empty()
                    } else {
                        shown_cards(player_list@[k].card_eaten@)
                    },
            decreases player_list@.len() - i,
        {
            if i != jugong && i != friend {
                r.push(Shared::shown_cards(&player_list[i].card_eaten));
            } else {
                r.push(Vec::new());
            }
            i = i + 1;
        }
        r
    }

    /// Settles a game whose president's side took `score1` points on a
    /// contract of `musteatnum` with trump `kiruda`: updates the scores (see
    /// `settled_score`) and the next dealer (the president after a bad
    /// defeat of 10 points or fewer, else the partner). Returns whether the
    /// contract was made.
    pub fn settle(
        score: &mut [usize; 5],
        dealer: &mut usize,
        score1: usize,
        musteatnum: usize,
        kiruda: usize,
        jugongnum: usize,
        friendnum: usize,
    ) -> (won: bool)
        requires
            jugongnum < 5,
            friendnum < 5,
            settle_defined(
                old(score)@,
                score1,
                musteatnum,
                kiruda,
                jugongnum as int,
                friendnum as int,
            ),
        ensures
            won == contract_made(score1, musteatnum),
            final(score)@.len() == 5,
            forall|i: int|
                0 <= i < 5 ==> final(score)@[i] == settled_score(
                    old(score)@,
                    i,
                    score1,
                    musteatnum,
                    kiruda,
                    jugongnum as int,
                    friendnum as int,
                ),
            *final(dealer) == if score1 <= BACKRUN_NUM {
                jugongnum
            } else {
                friendnum
            },
    {
        let ghost s0 = score@;
        *dealer = friendnum;
        let mut backrun_coef: usize = 1;
        if score1 <= BACKRUN_NUM {
            backrun_coef = 2;
            *dealer = jugongnum;
        }
        proof {
            // the new scores of the president and the partner are in range
            let sj = settled_score(s0, jugongnum as int, score1, musteatnum, kiruda, jugongnum as int, friendnum as int);
            let sf = settled_score(s0, friendnum as int, score1, musteatnum, kiruda, jugongnum as int, friendnum as int);
            assert(0 <= sj <= usize::MAX && 0 <= sf <= usize::MAX);
        }
        if score1 >= musteatnum {
            let mut no_kiru_coef: usize = 1;
            if kiruda == NO_KIRUDA_SHAPE {
                no_kiru_coef = 2;
            }
            let jumsu = ((score1 - LEAST_EAT_NUM) + (musteatnum - LEAST_EAT_NUM) * 2)
                * no_kiru_coef;
            score[jugongnum] = score[jugongnum] + 2 * jumsu;
            if jugongnum != friendnum {
                score[friendnum] = score[friendnum] + jumsu;
            } else {
                score[jugongnum] = score[jugongnum] + 2 * jumsu;
            }
            let mut i: usize = 0;
            while i < 5
                invariant
                    i <= 5,
                    jugongnum < 5,
                    friendnum < 5,
                    score1 >= musteatnum,
                    jumsu == stake(score1, musteatnum, kiruda),
                    settle_defined(s0, score1, musteatnum, kiruda, jugongnum as int, friendnum as int),
                    forall|k: int|
                        0 <= k < 5 ==> score@[k] == if k < i || k == jugongnum || k == friendnum {
                            settled_score(
                                s0,
                                k,
                                score1,
                                musteatnum,
                                kiruda,
                                jugongnum as int,
                                friendnum as int,
                            )
                        } else {
                            s0[k] as int
                        },
                decreases 5 - i,
            {
                if i != friendnum && i != jugongnum {
                    proof {
                        assert(0 <= settled_score(s0, i as int, score1, musteatnum, kiruda, jugongnum as int, friendnum as int));
                    }
                    score[i] = score[i] - jumsu;
                }
                i = i + 1;
            }
            true
        } else {
            let jumsu = (musteatnum - score1) * backrun_coef;
            score[jugongnum] = score[jugongnum] - 2 * jumsu;
            if jugongnum != friendnum {
                score[friendnum] = score[friendnum] - jumsu;
            } else {
                score[jugongnum] = score[jugongnum] - 2 * jumsu;
            }
            let mut i: usize = 0;
            while i < 5
                invariant
                    i <= 5,
                    jugongnum < 5,
                    friendnum < 5,
                    score1 < musteatnum,
                    jumsu == stake(score1, musteatnum, kiruda),
                    settle_defined(s0, score1, musteatnum, kiruda, jugongnum as int, friendnum as int),
                    forall|k: int|
                        0 <= k < 5 ==> score@[k] == if k < i || k == jugongnum || k == friendnum {
                            settled_score(
                                s0,
                                k,
                                score1,
                                musteatnum,
                                kiruda,
                                jugongnum as int,
                                friendnum as int,
                            )
                        } else {
                            s0[k] as int
                        },
                decreases 5 - i,
            {
                if i != friendnum && i != jugongnum {
                    proof {
                        assert(settled_score(s0, i as int, score1, musteatnum, kiruda, jugongnum as int, friendnum as int) <= usize::MAX);
                    }
                    score[i] = score[i] + jumsu;
                }
                i = i + 1;
            }
            false
        }
    }

    /// Whether the president's side made its contract: it took at least
    /// the points it announced.
    pub fn contract_made(score1: usize, musteatnum: usize) -> (r: bool)
        ensures
            r == contract_made(score1, musteatnum),
    {
        score1 >= musteatnum
    }

    /// Whether `settle` may run on these inputs (see `settle_defined`):
    /// otherwise settling would leave the range of machine numbers.
    pub fn settle_allowed(
        score: &[usize; 5],
        score1: usize,
        musteatnum: usize,
        kiruda: usize,
        jugongnum: usize,
        friendnum: usize,
    ) -> (r: bool)
        requires
            jugongnum < 5,
            friendnum < 5,
        ensures
            r == settle_defined(
                score@,
                score1,
                musteatnum,
                kiruda,
                jugongnum as int,
                friendnum as int,
            ),
    {
        let won = score1 >= musteatnum;
        let st: usize;
        if won {
            if musteatnum < LEAST_EAT_NUM {
                return false;
            }
            let coef: usize = if kiruda == NO_KIRUDA_SHAPE {
                2
            } else {
                1
            };
            let a = score1 - LEAST_EAT_NUM;
            let b = musteatnum - LEAST_EAT_NUM;
            match b.checked_mul(2) {
                None => {
                    return false;
                },
                Some(b2) => match a.checked_add(b2) {
                    None => {
                        return false;
                    },
                    Some(base) => match base.checked_mul(coef) {
                        None => {
                            return false;
                        },
                        Some(x) => {
                            st = x;
                        },
                    },
                },
            }
        } else {
            let coef: usize = if score1 <= BACKRUN_NUM {
                2
            } else {
                1
            };
            match (musteatnum - score1).checked_mul(coef) {
                None => {
                    return false;
                },
                Some(x) => {
                    st = x;
                },
            }
        }
        assert(st == stake(score1, musteatnum, kiruda));
        let big: u128 = st as u128;
        let max: u128 = usize::MAX as u128;
        let mut i: usize = 0;
        while i < 5
            invariant
                i <= 5,
                jugongnum < 5,
                friendnum < 5,
                won == contract_made(score1, musteatnum),
                won ==> musteatnum >= LEAST_EAT_NUM,
                big == stake(score1, musteatnum, kiruda),
                big <= usize::MAX,
                max == usize::MAX,
                score@.len() == 5,
                forall|k: int|
                    0 <= k < i ==> 0 <= #[trigger] settled_score(
                        score@,
                        k,
                        score1,
                        musteatnum,
                        kiruda,
                        jugongnum as int,
                        friendnum as int,
                    ) <= usize::MAX,
            decreases 5 - i,
        {
            let old_score: u128 = score[i] as u128;
            let up: bool = (won && (i == jugongnum || i == friendnum)) || (!won && i != jugongnum
                && i != friendnum);
            let amount: u128 = if i == jugongnum {
                if jugongnum == friendnum {
                    4 * big
                } else {
                    2 * big
                }
            } else {
                big
            };
            assert(settled_score(
                score@,
                i as int,
                score1,
                musteatnum,
                kiruda,
                jugongnum as int,
                friendnum as int,
            ) == if up {
                old_score + amount
            } else {
                old_score - amount
            });
            if up {
                if old_score + amount > max {
                    return false;
                }
            } else {
                if old_score < amount {
                    return false;
                }
            }
            i = i + 1;
        }
        true
    }

    /// The overall winner: the first seat with a highest score.
    pub fn final_winner(score: &[usize; 5]) -> (w: usize)
        ensures
            w < 5,
            first_highest(score@, w as int),
    {
        let mut winner: usize = 0;
        let mut i: usize = 0;
        while i < 5
            invariant
                i <= 5,
                winner < 5,
                winner <= i,
                score@.len() == 5,
                forall|k: int| 0 <= k < i ==> score@[k] <= score@[winner as int],
                forall|k: int| 0 <= k < winner ==> score@[k] < score@[winner as int],
            decreases 5 - i,
        {
            if score[winner] < score[i] {
                winner = i;
            }
            i = i + 1;
        }
        winner
    }
}

/// Settling a game moves points between the players without creating or
/// destroying any: the scores add up to the same total before and after.
pub proof fn lemma_settle_zero_sum(
    score: Seq<usize>,
    score1: usize,
    musteatnum: usize,
    kiruda: usize,
    jugongnum: int,
    friendnum: int,
)
    requires
        score.len() == 5,
        0 <= jugongnum < 5,
        0 <= friendnum < 5,
    ensures
        settled_score(score, 0, score1, musteatnum, kiruda, jugongnum, friendnum) + settled_score(
            score,
            1,
            score1,
            musteatnum,
            kiruda,
            jugongnum,
            friendnum,
        ) + settled_score(score, 2, score1, musteatnum, kiruda, jugongnum, friendnum)
            + settled_score(score, 3, score1, musteatnum, kiruda, jugongnum, friendnum)
            + settled_score(score, 4, score1, musteatnum, kiruda, jugongnum, friendnum) == score[0]
            + score[1] + score[2] + score[3] + score[4],
{
}

/// Each taken card of rank above 8 (jack, queen, king, ace) is one point
/// and no other card counts: a one-card pile counts 1 exactly when its card
/// is of rank above 8, and the points of two piles put together add up.
pub proof fn lemma_points_per_card(a: Seq<Card>, b: Seq<Card>, c: Card)
    ensures
        point_count(seq![c]) == if c.num > 8 {
            1nat
        } else {
            0nat
        },
        point_count(a + b) == point_count(a) + point_count(b),
    decreases b.len(),
{
    assert(seq![c].drop_last() =~= Seq::<Card>::empty());
    assert(seq![c].len() == 1 && seq![c].last() == c);
    assert(point_count(Seq::<Card>::empty()) == 0);
    if b.len() > 0 {
        assert((a + b).drop_last() =~= a + b.drop_last());
        lemma_points_per_card(a, b.drop_last(), c);
    } else {
        assert(a + b =~= a);
    }
}

/// The cards listed are exactly the taken suit cards of rank 8 (the ten) and
/// up, in the order taken: a one-card pile lists its card exactly when it is
/// such a card, and the list of two piles put together is the list of the
/// first followed by the list of the second.
pub proof fn lemma_shown_per_card(a: Seq<Card>, b: Seq<Card>, c: Card)
    ensures
        shown_cards(seq![c]) == if c.shape != 4 && c.num >= 8 {
            seq![c]
        } else {
            Seq::<Card>::empty()
        },
        shown_cards(a + b) == shown_cards(a) + shown_cards(b),
    decreases b.len(),
{
    assert(seq![c].drop_last() =~= Seq::<Card>::empty());
    assert(Seq::<Card>::empty().push(c) =~= seq![c]);
    assert(seq![c].len() == 1 && seq![c].last() == c);
    assert(shown_cards(Seq::<Card>::empty()) == Seq::<Card>::empty());
    if b.len() > 0 {
        assert((a + b).drop_last() =~= a + b.drop_last());
        lemma_shown_per_card(a, b.drop_last(), c);
        assert(shown_cards(a) + shown_cards(b.drop_last()).push(b.last()) =~= (shown_cards(a)
            + shown_cards(b.drop_last())).push(b.last()));
    } else {
        assert(a + b =~= a);
        assert(shown_cards(a) + shown_cards(b) =~= shown_cards(a));
    }
}

/// Every card listed is a taken suit card of rank 8 and up, and every such
/// taken card is listed.
pub proof fn lemma_shown_are_high_suit_cards(s: Seq<Card>, c: Card)
    ensures
        shown_cards(s).contains(c) <==> (s.contains(c) && c.shape != 4 && c.num >= 8),
    decreases s.len(),
{
    if s.len() > 0 {
        lemma_shown_are_high_suit_cards(s.drop_last(), c);
        let before = shown_cards(s.drop_last());
        assert(s =~= s.drop_last().push(s.last()));
        if s.drop_last().contains(c) {
            let k = choose|k: int| 0 <= k < s.drop_last().len() && s.drop_last()[k] == c;
            assert(s[k] == c);
        }
        if s.contains(c) && c != s.last() {
            let k = choose|k: int| 0 <= k < s.len() && s[k] == c;
            assert(s.drop_last()[k] == c);
        }
        if s.last().shape != 4 && s.last().num >= 8 {
            let after = before.push(s.last());
            assert(after[before.len() as int] == s.last());
            if before.contains(c) {
                let k = choose|k: int| 0 <= k < before.len() && before[k] == c;
                assert(after[k] == c);
            }
            if after.contains(c) && c != s.last() {
                let k = choose|k: int| 0 <= k < after.len() && after[k] == c;
                assert(before[k] == c);
            }
        }
        if s.last() == c {
            assert(s[s.len() - 1] == c);
        }
    }
}

} // verus!
