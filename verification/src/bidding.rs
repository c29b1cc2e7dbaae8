use vstd::prelude::*;

use crate::cards::{LEAST_EAT_NUM, NO_KIRUDA_SHAPE};
use crate::lobby::Shared;

verus! {

/// The highest contract: all twenty point cards.
pub const MAX_CAMPAIGN: usize = 20;

/// How many entries of `s` are set.
pub open spec fn count_true(s: Seq<bool>) -> nat
    decreases s.len(),
{
    if s.len() == 0 {
        0
    } else {
        count_true(s.drop_last()) + if s.last() {
            1nat
        } else {
            0nat
        }
    }
}

/// The lowest contract that may be announced with trump `shape` over the
/// current contract `musteatnum`: one more with a trump suit, the same
/// without trump (suit 4), and `extra` more on top.
pub open spec fn spec_campaign_floor(musteatnum: usize, shape: usize, extra: usize) -> int {
    musteatnum + extra + if shape == NO_KIRUDA_SHAPE {
        0int
    } else {
        1int
    }
}

/// Whether trump `shape` and contract `num` may be announced over
/// `musteatnum`: the suit is 0 to 4 and the contract lies between the floor
/// and twenty.
pub open spec fn spec_campaign_ok(musteatnum: usize, shape: usize, num: usize, extra: usize) -> bool {
    &&& shape <= 4
    &&& num >= spec_campaign_floor(musteatnum, shape, extra)
    &&& num <= MAX_CAMPAIGN
}

/// A player's answer when its turn to bid comes.
#[derive(Debug, PartialEq, Eq, Structural)]
pub enum BidAnswer {
    /// The player passes for good (until everybody has passed).
    Pass,
    /// The player stands with trump `shape` and contract `num`.
    Candidacy { shape: usize, num: usize },
    /// Any other answer, and the turn of a player who has passed: nothing happens.
    Other,
}

/// The bidding for the presidency.
pub struct Bidding {
    /// Whose turn it is.
    pub position: usize,
    /// Which players have passed.
    pub did_passed: Vec<bool>,
    /// How many players have passed.
    pub passed_num: usize,
    /// Whether anyone has stood as a candidate.
    pub anyone_chulma: bool,
    /// The current contract.
    pub musteatnum: usize,
    /// The current candidate.
    pub jugongnum: usize,
    /// The candidate's trump.
    pub kiruda: usize,
}

impl Shared {
    /// Whether `shape` names a suit, or no trump (4).
    pub fn suit_valid(shape: usize) -> (r: bool)
        ensures
            r == (shape <= 4),
    {
        shape <= 4
    }

    /// The lowest contract that may be announced (see `spec_campaign_floor`).
    pub fn campaign_floor(musteatnum: usize, shape: usize, extra: usize) -> (r: usize)
        requires
            musteatnum + extra + 1 <= usize::MAX,
        ensures
            r == spec_campaign_floor(musteatnum, shape, extra),
    {
        let mut is_kiruda_exist: usize = 1;
        if shape == NO_KIRUDA_SHAPE {
            is_kiruda_exist = 0;
        }
        musteatnum + extra + is_kiruda_exist
    }

    /// Whether trump `shape` and contract `num` may be announced over
    /// `musteatnum` (see `spec_campaign_ok`). Bids use `extra` 0; the
    /// president who changes trump after seeing the cards under the deck
    /// uses `extra` 1.
    pub fn campaign_accepted(musteatnum: usize, shape: usize, num: usize, extra: usize) -> (r: bool)
        requires
            musteatnum + extra + 1 <= usize::MAX,
        ensures
            r == spec_campaign_ok(musteatnum, shape, num, extra),
    {
        if shape > 4 {
            return false;
        }
        let floor = Shared::campaign_floor(musteatnum, shape, extra);
        num >= floor && num <= MAX_CAMPAIGN
    }
}

impl Bidding {
    pub open spec fn wf(&self) -> bool {
        &&& self.position < 5
        &&& self.did_passed@.len() == 5
        &&& self.passed_num == count_true(self.did_passed@)
        &&& self.musteatnum <= MAX_CAMPAIGN
        &&& self.jugongnum < 5
        &&& self.kiruda <= 4
        &&& !self.anyone_chulma ==> self.musteatnum < LEAST_EAT_NUM
    }

    /// The bidding at its start: the player at `startpoint` speaks first,
    /// nobody has passed, and the contract stands at 13.
    pub fn new(startpoint: usize) -> (b: Bidding)
        requires
            startpoint < 5,
        ensures
            b.wf(),
            b.position == startpoint,
            forall|i: int| 0 <= i < 5 ==> !b.did_passed@[i],
            b.passed_num == 0,
            !b.anyone_chulma,
            b.musteatnum == LEAST_EAT_NUM - 1,
            b.jugongnum == 0,
            b.kiruda == 0,
    {
        let b = Bidding {
            position: startpoint,
            did_passed: vec![false, false, false, false, false],
            passed_num: 0,
            anyone_chulma: false,
            musteatnum: LEAST_EAT_NUM - 1,
            jugongnum: 0,
            kiruda: 0,
        };
        proof {
            reveal_with_fuel(count_true, 6);
            assert(b.did_passed@.drop_last().drop_last().drop_last().drop_last().drop_last()
                =~= Seq::<bool>::empty());
        }
        b
    }

    /// Whether the player whose turn it is is asked (it has not passed).
    pub fn must_answer(&self) -> (r: bool)
        requires
            self.wf(),
        ensures
            r == !self.did_passed@[self.position as int],
    {
        !self.did_passed[self.position]
    }
}

/// Setting an unset entry adds one to the count.
proof fn lemma_count_true_set(s: Seq<bool>, i: int)
    requires
        0 <= i < s.len(),
        !s[i],
    ensures
        count_true(s.update(i, true)) == count_true(s) + 1,
    decreases s.len(),
{
    let t = s.update(i, true);
    if i == s.len() - 1 {
        assert(t.drop_last() =~= s.drop_last());
    } else {
        assert(t.drop_last() =~= s.drop_last().update(i, true));
        lemma_count_true_set(s.drop_last(), i);
    }
}

/// The count is at most the length, and below it when an entry is unset.
proof fn lemma_count_true_bound(s: Seq<bool>, i: int)
    requires
        0 <= i < s.len(),
        !s[i],
    ensures
        count_true(s) < s.len(),
    decreases s.len(),
{
    lemma_count_true_le(s.drop_last());
    if i < s.len() - 1 {
        lemma_count_true_bound(s.drop_last(), i);
    }
}

proof fn lemma_count_true_le(s: Seq<bool>)
    ensures
        count_true(s) <= s.len(),
    decreases s.len(),
{
    if s.len() > 0 {
        lemma_count_true_le(s.drop_last());
    }
}

/// Whether the player whose turn it is gets to answer.
pub open spec fn asked(b: Bidding) -> bool {
    !b.did_passed@[b.position as int]
}

pub open spec fn bids(b: Bidding, a: BidAnswer) -> bool {
    asked(b) && a is Candidacy
}

pub open spec fn passes(b: Bidding, a: BidAnswer) -> bool {
    asked(b) && a is Pass
}

/// The passes after the answer.
pub open spec fn answered_did_passed(b: Bidding, a: BidAnswer) -> Seq<bool> {
    if passes(b, a) {
        b.did_passed@.update(b.position as int, true)
    } else {
        b.did_passed@
    }
}

pub open spec fn answered_passed_num(b: Bidding, a: BidAnswer) -> int {
    if passes(b, a) {
        b.passed_num + 1
    } else {
        b.passed_num as int
    }
}

pub open spec fn answered_anyone(b: Bidding, a: BidAnswer) -> bool {
    bids(b, a) || b.anyone_chulma
}

pub open spec fn answered_musteatnum(b: Bidding, a: BidAnswer) -> int {
    if bids(b, a) {
        a->num as int
    } else {
        b.musteatnum as int
    }
}

pub open spec fn answered_jugongnum(b: Bidding, a: BidAnswer) -> usize {
    if bids(b, a) {
        b.position
    } else {
        b.jugongnum
    }
}

pub open spec fn answered_kiruda(b: Bidding, a: BidAnswer) -> usize {
    if bids(b, a) {
        a->shape
    } else {
        b.kiruda
    }
}

/// The bidding ends when the contract reaches twenty, or when at least four
/// players have passed after someone stood.
pub open spec fn bidding_over(b: Bidding, a: BidAnswer) -> bool {
    answered_musteatnum(b, a) == MAX_CAMPAIGN || (answered_passed_num(b, a) >= 4 && answered_anyone(
        b,
        a,
    ))
}

/// Everybody passed without a candidate: the passes are cleared and the
/// contract drops by one.
pub open spec fn all_passed(b: Bidding, a: BidAnswer) -> bool {
    !bidding_over(b, a) && answered_passed_num(b, a) == 5 && !answered_anyone(b, a)
}

impl Bidding {
    /// Plays the turn of the player whose turn it is, who gives `answer` (a
    /// player who has passed is not asked, and `answer` is then ignored):
    /// a candidacy makes the player the candidate with its trump and
    /// contract, a pass marks the player as passed. Returns whether the
    /// bidding is over; if not, and everybody has passed without a
    /// candidate, the passes are cleared and the contract drops by one, and
    /// the turn goes to the next seat.
    pub fn turn(&mut self, answer: BidAnswer) -> (done: bool)
        requires
            old(self).wf(),
            bids(*old(self), answer) ==> spec_campaign_ok(
                old(self).musteatnum,
                answer->shape,
                answer->num,
                0,
            ),
            !(all_passed(*old(self), answer) && answered_musteatnum(*old(self), answer) == 0),
        ensures
            final(self).wf(),
            done == bidding_over(*old(self), answer),
            done ==> final(self).anyone_chulma,
            final(self).anyone_chulma == answered_anyone(*old(self), answer),
            final(self).jugongnum == answered_jugongnum(*old(self), answer),
            final(self).kiruda == answered_kiruda(*old(self), answer),
            all_passed(*old(self), answer) ==> {
                &&& forall|i: int| 0 <= i < 5 ==> !final(self).did_passed@[i]
                &&& final(self).passed_num == 0
                &&& final(self).musteatnum == answered_musteatnum(*old(self), answer) - 1
            },
            !all_passed(*old(self), answer) ==> {
                &&& final(self).did_passed@ == answered_did_passed(*old(self), answer)
                &&& final(self).passed_num == answered_passed_num(*old(self), answer)
                &&& final(self).musteatnum == answered_musteatnum(*old(self), answer)
            },
            final(self).position == if done {
                old(self).position as int
            } else {
                (old(self).position + 1) % 5
            },
    {
        let p = self.position;
        if !self.did_passed[p] {
            match answer {
                BidAnswer::Candidacy { shape, num } => {
                    self.jugongnum = p;
                    self.kiruda = shape;
                    self.musteatnum = num;
                    self.anyone_chulma = true;
                },
                BidAnswer::Pass => {
                    proof {
                        lemma_count_true_bound(self.did_passed@, p as int);
                        lemma_count_true_set(self.did_passed@, p as int);
                    }
                    self.did_passed.set(p, true);
                    self.passed_num = self.passed_num + 1;
                },
                BidAnswer::Other => {},
            }
        }
        if self.musteatnum == MAX_CAMPAIGN {
            return true;
        }
        if self.passed_num >= 4 && self.anyone_chulma {
            return true;
        }
        if self.passed_num == 5 && !self.anyone_chulma {
            self.did_passed = vec![false, false, false, false, false];
            self.passed_num = 0;
            self.musteatnum = self.musteatnum - 1;
            proof {
                reveal_with_fuel(count_true, 6);
                assert(self.did_passed@.drop_last().drop_last().drop_last().drop_last().drop_last()
                    =~= Seq::<bool>::empty());
            }
        }
        self.position = (p + 1) % 5;
        false
    }

    /// Whether `turn` may take `answer`: not when everybody would have
    /// passed without a candidate on a contract of 0, which cannot drop
    /// any further.
    pub fn turn_allowed(&self, answer: &BidAnswer) -> (r: bool)
        requires
            self.wf(),
        ensures
            r == !(all_passed(*self, *answer) && answered_musteatnum(*self, *answer) == 0),
    {
        let p = self.position;
        let asked = !self.did_passed[p];
        let mut passed = self.passed_num;
        let mut anyone = self.anyone_chulma;
        let mut must = self.musteatnum;
        if asked {
            match answer {
                BidAnswer::Candidacy { shape: _, num } => {
                    anyone = true;
                    must = *num;
                },
                BidAnswer::Pass => {
                    proof {
                        lemma_count_true_bound(self.did_passed@, p as int);
                    }
                    passed = passed + 1;
                },
                BidAnswer::Other => {},
            }
        }
        let over = must == MAX_CAMPAIGN || (passed >= 4 && anyone);
        !(!over && passed == 5 && !anyone && must == 0)
    }
}

/// The extra of the president's trump change is added alike for every suit:
/// the lowest contract is the current one, plus one with a trump suit (none
/// without trump), plus the extra.
pub proof fn lemma_campaign_floor_extra(musteatnum: usize, shape: usize, extra: usize)
    ensures
        spec_campaign_floor(musteatnum, shape, extra) == spec_campaign_floor(musteatnum, shape, 0)
            + extra,
        spec_campaign_floor(musteatnum, NO_KIRUDA_SHAPE, extra) == musteatnum + extra,
        shape != NO_KIRUDA_SHAPE ==> spec_campaign_floor(musteatnum, shape, extra) == musteatnum + 1
            + extra,
        spec_campaign_ok(musteatnum, shape, musteatnum as usize, 1) == false,
{
}

/// A contract may be announced exactly when the suit is 0 to 4 and the
/// contract is at most twenty and above the current one by at least the
/// extra, and by one more with a trump suit.
pub proof fn lemma_campaign_ok_meaning(musteatnum: usize, shape: usize, num: usize, extra: usize)
    ensures
        spec_campaign_ok(musteatnum, shape, num, extra) <==> (shape <= 4 && num <= 20 && (if shape
            == 4 {
            num >= musteatnum + extra
        } else {
            num >= musteatnum + extra + 1
        })),
{
}

} // verus!
