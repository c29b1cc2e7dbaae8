use vstd::prelude::*;

use crate::cards::{
    is_jokercall,
    is_mighty,
    Card,
    EMPTY_SHAPE,
    FIRST_SHAPE_COEF,
    JOKERCALL_NUM,
    JOKERCALL_SHAPE,
    JOKER_COEF,
    JOKER_SHAPE,
    KIRUDA_COEF,
    MIGHTY_COEF,
    MIGHTY_NUM,
    MIGHTY_SHAPE,
    NO_KIRUDA_SHAPE,
};
use crate::lobby::Shared;
use crate::table::{Field, Friend, Player};

verus! {

/// The verdict on a card that a player offers to the trick.
#[derive(Debug, PartialEq, Eq, Structural)]
pub enum PlayCheck {
    /// There is no card at that position of the hand.
    NoSuchCard,
    /// The joker was called and the player holds it, but not the mighty.
    MustPlayJoker,
    /// The joker was called and the player holds the joker and the mighty.
    MustPlayJokerOrMighty,
    /// The player holds the lead suit and must follow it.
    MustFollowSuit,
    /// In the first trick a trump may be led only from a hand of trumps.
    Refused,
    /// Played; the lead suit does not change.
    Accept,
    /// Played as the lead; the lead suit becomes the given suit.
    Lead(usize),
    /// The joker is led; the leader names the lead suit.
    LeadJoker,
    /// The joker call is led: the lead suit becomes the given suit, and the
    /// joker is called.
    CallJoker(usize),
}

impl PlayCheck {
    pub open spec fn spec_accepted(self) -> bool {
        match self {
            PlayCheck::Accept => true,
            PlayCheck::Lead(_) => true,
            PlayCheck::LeadJoker => true,
            PlayCheck::CallJoker(_) => true,
            _ => false,
        }
    }

    /// Whether the card is played.
    pub fn is_accepted(&self) -> (r: bool)
        ensures
            r == self.spec_accepted(),
    {
        match self {
            PlayCheck::Accept => true,
            PlayCheck::Lead(_) => true,
            PlayCheck::LeadJoker => true,
            PlayCheck::CallJoker(_) => true,
            _ => false,
        }
    }
}

pub open spec fn has_joker(hand: Seq<Card>) -> bool {
    exists|i: int| 0 <= i < hand.len() && hand[i].shape == JOKER_SHAPE
}

pub open spec fn has_mighty(hand: Seq<Card>, kiruda: usize) -> bool {
    exists|i: int| 0 <= i < hand.len() && is_mighty(hand[i], kiruda)
}

pub open spec fn has_shape(hand: Seq<Card>, shape: usize) -> bool {
    exists|i: int| 0 <= i < hand.len() && hand[i].shape == shape
}

pub open spec fn all_of_shape(hand: Seq<Card>, shape: usize) -> bool {
    forall|i: int| 0 <= i < hand.len() ==> hand[i].shape == shape
}

/// The rules of play. A player whose joker has been called must give up the
/// joker (or the mighty, if it holds both). The leader of the first trick
/// may lead a trump only from a hand of trumps (and the lead suit then
/// stays open); a led joker lets the leader name the lead suit; from the
/// second trick on, leading the joker call calls the joker; any other lead
/// sets the lead suit. A follower may play the lead suit, the mighty, or the
/// joker, and anything else only when void in the lead suit.
pub open spec fn spec_check_play(
    hand: Seq<Card>,
    num: int,
    first_shape: usize,
    roundnum: usize,
    kiruda: usize,
    is_joker_called: bool,
) -> PlayCheck {
    if !(0 <= num < hand.len()) {
        PlayCheck::NoSuchCard
    } else {
        let c = hand[num];
        if is_joker_called && has_joker(hand) && !has_mighty(hand, kiruda) {
            if c.shape == JOKER_SHAPE {
                PlayCheck::Accept
            } else {
                PlayCheck::MustPlayJoker
            }
        } else if is_joker_called && has_joker(hand) && has_mighty(hand, kiruda) {
            if c.shape == JOKER_SHAPE || is_mighty(c, kiruda) {
                PlayCheck::Accept
            } else {
                PlayCheck::MustPlayJokerOrMighty
            }
        } else if first_shape == EMPTY_SHAPE {
            if roundnum == 0 && c.shape == kiruda {
                if all_of_shape(hand, kiruda) {
                    PlayCheck::Accept
                } else {
                    PlayCheck::Refused
                }
            } else if c.shape == JOKER_SHAPE {
                PlayCheck::LeadJoker
            } else if roundnum > 0 && is_jokercall(c, kiruda) {
                PlayCheck::CallJoker(c.shape)
            } else {
                PlayCheck::Lead(c.shape)
            }
        } else if first_shape == c.shape {
            PlayCheck::Accept
        } else if is_mighty(c, kiruda) {
            PlayCheck::Accept
        } else if c.shape == JOKER_SHAPE {
            PlayCheck::Accept
        } else if has_shape(hand, first_shape) {
            PlayCheck::MustFollowSuit
        } else {
            PlayCheck::Accept
        }
    }
}

/// The lead suit after an accepted play with verdict `check`.
pub open spec fn lead_after(check: PlayCheck, first_shape: usize, joker_suit: usize) -> usize {
    match check {
        PlayCheck::Lead(s) => s,
        PlayCheck::LeadJoker => joker_suit,
        PlayCheck::CallJoker(s) => s,
        _ => first_shape,
    }
}

/// The strength of card `c` in a trick: its rank, plus 100 for the lead
/// suit, 1000 for trump, 100000 for the mighty, and 10000 for the joker
/// when it is in force (not in the first or last trick, and not called).
pub open spec fn card_strength(
    c: Card,
    first_shape: usize,
    kiruda: usize,
    roundnum: usize,
    is_joker_called: bool,
) -> int {
    c.num + (if c.shape == first_shape {
        100int
    } else {
        0int
    }) + (if c.shape == kiruda && kiruda != NO_KIRUDA_SHAPE {
        1000int
    } else {
        0int
    }) + (if is_mighty(c, kiruda) {
        100000int
    } else {
        0int
    }) + (if c.shape == JOKER_SHAPE && roundnum != 0 && roundnum != 9 && !is_joker_called {
        10000int
    } else {
        0int
    })
}

/// A card whose strength fits a machine word.
pub open spec fn strength_fits(c: Card) -> bool {
    c.num + 111100 <= usize::MAX
}

/// `w` is the first place that holds a strongest card.
pub open spec fn first_strongest(
    cards: Seq<Card>,
    w: int,
    first_shape: usize,
    kiruda: usize,
    roundnum: usize,
    is_joker_called: bool,
) -> bool {
    &&& 0 <= w < cards.len()
    &&& forall|i: int|
        0 <= i < cards.len() ==> card_strength(cards[i], first_shape, kiruda, roundnum, is_joker_called)
            <= card_strength(cards[w], first_shape, kiruda, roundnum, is_joker_called)
    &&& forall|i: int|
        0 <= i < w ==> card_strength(cards[i], first_shape, kiruda, roundnum, is_joker_called)
            < card_strength(cards[w], first_shape, kiruda, roundnum, is_joker_called)
}

fn hand_has_joker(hand: &Vec<Card>) -> (r: bool)
    ensures
        r == has_joker(hand@),
{
    let mut i: usize = 0;
    while i < hand.len()
        invariant
            i <= hand@.len(),
            forall|j: int| 0 <= j < i ==> hand@[j].shape != JOKER_SHAPE,
        decreases hand@.len() - i,
    {
        if hand[i].shape == JOKER_SHAPE {
            return true;
        }
        i = i + 1;
    }
    false
}

fn hand_has_mighty(hand: &Vec<Card>, kiruda: usize) -> (r: bool)
    ensures
        r == has_mighty(hand@, kiruda),
{
    let mighty = MIGHTY_SHAPE + Shared::is_mighty_affected(&kiruda);
    let mut i: usize = 0;
    while i < hand.len()
        invariant
            i <= hand@.len(),
            mighty == crate::cards::mighty_shape(kiruda),
            forall|j: int| 0 <= j < i ==> !is_mighty(hand@[j], kiruda),
        decreases hand@.len() - i,
    {
        if hand[i].shape == mighty && hand[i].num == MIGHTY_NUM {
            return true;
        }
        i = i + 1;
    }
    false
}

fn hand_has_shape(hand: &Vec<Card>, shape: usize) -> (r: bool)
    ensures
        r == has_shape(hand@, shape),
{
    let mut i: usize = 0;
    while i < hand.len()
        invariant
            i <= hand@.len(),
            forall|j: int| 0 <= j < i ==> hand@[j].shape != shape,
        decreases hand@.len() - i,
    {
        if hand[i].shape == shape {
            return true;
        }
        i = i + 1;
    }
    false
}

fn hand_all_of_shape(hand: &Vec<Card>, shape: usize) -> (r: bool)
    ensures
        r == all_of_shape(hand@, shape),
{
    let mut i: usize = 0;
    while i < hand.len()
        invariant
            i <= hand@.len(),
            forall|j: int| 0 <= j < i ==> hand@[j].shape == shape,
        decreases hand@.len() - i,
    {
        if hand[i].shape != shape {
            return false;
        }
        i = i + 1;
    }
    true
}

/// The state of a trick being played: the field, whose turn it is, and
/// whether the joker has been called.
pub struct Trick {
    pub field: Field,
    pub position: usize,
    pub is_joker_called: bool,
}

impl Trick {
    pub open spec fn wf(&self) -> bool {
        self.field.cards@.len() == 5 && self.position < 5
    }

    /// A new trick, led by the player at `startpoint`.
    pub fn new(startpoint: usize) -> (t: Trick)
        requires
            startpoint < 5,
        ensures
            t.wf(),
            t.position == startpoint,
            !t.is_joker_called,
            t.field.first_shape == EMPTY_SHAPE,
            forall|i: int| 0 <= i < 5 ==> t.field.cards@[i] == (Card { shape: EMPTY_SHAPE, num: 0 }),
    {
        Trick { field: Field::new(), position: startpoint, is_joker_called: false }
    }

    /// The verdict on playing the card at position `num` (from 0) of `hand`
    /// in round `roundnum` with trump `kiruda`.
    pub fn check_play(&self, hand: &Vec<Card>, num: usize, roundnum: usize, kiruda: usize) -> (r:
        PlayCheck)
        ensures
            r == spec_check_play(
                hand@,
                num as int,
                self.field.first_shape,
                roundnum,
                kiruda,
                self.is_joker_called,
            ),
    {
        if num >= hand.len() {
            return PlayCheck::NoSuchCard;
        }
        let c = &hand[num];
        if self.is_joker_called {
            let have_joker = hand_has_joker(hand);
            let have_mighty = hand_has_mighty(hand, kiruda);
            if have_joker && !have_mighty {
                if c.shape == JOKER_SHAPE {
                    return PlayCheck::Accept;
                } else {
                    return PlayCheck::MustPlayJoker;
                }
            } else if have_joker && have_mighty {
                if c.shape == JOKER_SHAPE {
                    return PlayCheck::Accept;
                } else if c.shape == MIGHTY_SHAPE + Shared::is_mighty_affected(&kiruda) && c.num
                    == MIGHTY_NUM {
                    return PlayCheck::Accept;
                } else {
                    return PlayCheck::MustPlayJokerOrMighty;
                }
            }
        }
        if self.field.first_shape == EMPTY_SHAPE {
            if roundnum == 0 && c.shape == kiruda {
                if hand_all_of_shape(hand, kiruda) {
                    PlayCheck::Accept
                } else {
                    PlayCheck::Refused
                }
            } else if c.shape == JOKER_SHAPE {
                PlayCheck::LeadJoker
            } else if roundnum > 0 && c.shape == (JOKERCALL_SHAPE + Shared::is_jokercall_affected(
                &kiruda,
            )) % 4 && c.num == JOKERCALL_NUM {
                PlayCheck::CallJoker(c.shape)
            } else {
                PlayCheck::Lead(c.shape)
            }
        } else if self.field.first_shape == c.shape {
            PlayCheck::Accept
        } else if c.shape == MIGHTY_SHAPE + Shared::is_mighty_affected(&kiruda) && c.num
            == MIGHTY_NUM {
            PlayCheck::Accept
        } else if c.shape == JOKER_SHAPE {
            PlayCheck::Accept
        } else if hand_has_shape(hand, self.field.first_shape) {
            PlayCheck::MustFollowSuit
        } else {
            PlayCheck::Accept
        }
    }

    /// The player whose turn it is offers the card at position `num` (from
    /// 0) of its hand. When the verdict accepts the card, it leaves the hand
    /// for the player's place on the field, the lead suit and the joker call
    /// follow the verdict (`joker_suit` is the suit named when the joker is
    /// led), the partner is revealed when the card is the partner card, and
    /// the turn passes to the next seat. Otherwise nothing changes.
    pub fn play(
        &mut self,
        player_list: &mut Vec<Player>,
        num: usize,
        roundnum: usize,
        kiruda: usize,
        friend: &Friend,
        friendnum: &mut usize,
        joker_suit: usize,
    ) -> (check: PlayCheck)
        requires
            old(self).wf(),
            old(player_list)@.len() >= 5,
            spec_check_play(
                old(player_list)@[old(self).position as int].card_in_hand@,
                num as int,
                old(self).field.first_shape,
                roundnum,
                kiruda,
                old(self).is_joker_called,
            ) == PlayCheck::LeadJoker ==> joker_suit < 4,
        ensures
            ({
                let p = old(self).position as int;
                let hand = old(player_list)@[p].card_in_hand@;
                &&& check == spec_check_play(
                    hand,
                    num as int,
                    old(self).field.first_shape,
                    roundnum,
                    kiruda,
                    old(self).is_joker_called,
                )
                &&& final(self).wf()
                &&& final(player_list)@.len() == old(player_list)@.len()
                &&& check.spec_accepted() ==> {
                    &&& forall|i: int| 0 <= i < old(player_list)@.len() && i != p ==> final(player_list)@[i] == old(
                        player_list,
                    )@[i]
                    &&& final(player_list)@[p].card_in_hand@ == hand.remove(num as int)
                    &&& final(player_list)@[p].card_eaten@ == old(player_list)@[p].card_eaten@
                    &&& final(player_list)@[p].person == old(player_list)@[p].person
                    &&& final(self).field.cards@ == old(self).field.cards@.update(p, hand[num as int])
                    &&& final(self).field.first_shape == lead_after(
                        check,
                        old(self).field.first_shape,
                        joker_suit,
                    )
                    &&& final(self).is_joker_called == (old(self).is_joker_called
                        || check is CallJoker)
                    &&& final(self).position == (p + 1) % 5
                    &&& *final(friendnum) == if friend.how_indicate == 3 && friend.card == hand[num as int] {
                        p as usize
                    } else {
                        *old(friendnum)
                    }
                }
                &&& !check.spec_accepted() ==> {
                    &&& final(player_list)@ == old(player_list)@
                    &&& *final(self) == *old(self)
                    &&& *final(friendnum) == *old(friendnum)
                }
            }),
    {
        let p = self.position;
        let check = self.check_play(&player_list[p].card_in_hand, num, roundnum, kiruda);
        if check.is_accepted() {
            let card = player_list[p].card_in_hand[num].copy();
            if friend.revealed_by(&card) {
                *friendnum = p;
            }
            match check {
                PlayCheck::Lead(s) => {
                    self.field.first_shape = s;
                },
                PlayCheck::LeadJoker => {
                    self.field.first_shape = joker_suit;
                },
                PlayCheck::CallJoker(s) => {
                    self.field.first_shape = s;
                    self.is_joker_called = true;
                },
                _ => {},
            }
            self.field.cards.set(p, card);
            player_list[p].card_in_hand.remove(num);
            self.position = (p + 1) % 5;
        }
        check
    }
}

impl Shared {
    /// Whether `shape` names a suit that a led joker may call for (0 to 3).
    pub fn lead_suit_valid(shape: usize) -> (r: bool)
        ensures
            r == (shape < 4),
    {
        shape <= 3
    }
}

impl Shared {
    /// The strength of `card` in a trick with lead suit `first_shape`, trump
    /// `kiruda`, in round `roundnum`.
    pub fn card_strength(
        card: &Card,
        first_shape: usize,
        kiruda: usize,
        roundnum: usize,
        is_joker_called: bool,
    ) -> (s: usize)
        requires
            strength_fits(*card),
        ensures
            s == card_strength(*card, first_shape, kiruda, roundnum, is_joker_called),
    {
        let mut strong: usize = card.num;
        if card.shape == first_shape {
            strong = strong + FIRST_SHAPE_COEF;
        }
        if card.shape == kiruda && kiruda != NO_KIRUDA_SHAPE {
            strong = strong + KIRUDA_COEF;
        }
        if card.shape == MIGHTY_SHAPE + Shared::is_mighty_affected(&kiruda) && card.num
            == MIGHTY_NUM {
            strong = strong + MIGHTY_COEF;
        }
        if card.shape == JOKER_SHAPE && !is_joker_called {
            let avail = Shared::is_joker_avaliable(&roundnum);
            assert(JOKER_COEF * avail == if avail == 1 {
                10000usize
            } else {
                0usize
            });
            strong = strong + JOKER_COEF * avail;
        }
        strong
    }

    /// Settles the trick on `field`: the first place holding a strongest card
    /// wins, and its player takes the five cards of the field, in seat
    /// order. Returns the winning seat.
    pub fn eat_field(
        field: &Field,
        player_list: &mut Vec<Player>,
        kiruda: &usize,
        roundnum: &usize,
        is_joker_called: bool,
    ) -> (w: usize)
        requires
            field.cards@.len() == 5,
            old(player_list)@.len() >= 5,
            forall|i: int| 0 <= i < 5 ==> strength_fits(#[trigger] field.cards@[i]),
        ensures
            w < 5,
            first_strongest(
                field.cards@,
                w as int,
                field.first_shape,
                *kiruda,
                *roundnum,
                is_joker_called,
            ),
            final(player_list)@.len() == old(player_list)@.len(),
            forall|i: int| 0 <= i < old(player_list)@.len() && i != w ==> final(player_list)@[i] == old(player_list)@[i],
            final(player_list)@[w as int].card_eaten@ == old(player_list)@[w as int].card_eaten@
                + field.cards@,
            final(player_list)@[w as int].card_in_hand@ == old(
                player_list,
            )@[w as int].card_in_hand@,
            final(player_list)@[w as int].person == old(player_list)@[w as int].person,
    {
        let ghost cards = field.cards@;
        let mut strongest: usize = 0;
        let mut best: usize = Shared::card_strength(
            &field.cards[0],
            field.first_shape,
            *kiruda,
            *roundnum,
            is_joker_called,
        );
        let mut n: usize = 1;
        while n < 5
            invariant
                1 <= n <= 5,
                strongest < n,
                field.cards@.len() == 5,
                forall|i: int| 0 <= i < 5 ==> strength_fits(#[trigger] field.cards@[i]),
                best == card_strength(
                    field.cards@[strongest as int],
                    field.first_shape,
                    *kiruda,
                    *roundnum,
                    is_joker_called,
                ),
                forall|i: int|
                    0 <= i < n ==> card_strength(
                        field.cards@[i],
                        field.first_shape,
                        *kiruda,
                        *roundnum,
                        is_joker_called,
                    ) <= best,
                forall|i: int|
                    0 <= i < strongest ==> card_strength(
                        field.cards@[i],
                        field.first_shape,
                        *kiruda,
                        *roundnum,
                        is_joker_called,
                    ) < best,
            decreases 5 - n,
        {
            let s = Shared::card_strength(
                &field.cards[n],
                field.first_shape,
                *kiruda,
                *roundnum,
                is_joker_called,
            );
            if s > best {
                strongest = n;
                best = s;
            }
            n = n + 1;
        }
        let ghost eaten0 = player_list@[strongest as int].card_eaten@;
        let mut k: usize = 0;
        while k < 5
            invariant
                k <= 5,
                strongest < 5,
                field.cards@.len() == 5,
                player_list@.len() == old(player_list)@.len(),
                old(player_list)@.len() >= 5,
                forall|i: int| 0 <= i < old(player_list)@.len() && i != strongest ==> player_list@[i] == old(player_list)@[i],
                player_list@[strongest as int].card_eaten@ == eaten0 + field.cards@.take(k as int),
                player_list@[strongest as int].card_in_hand@ == old(
                    player_list,
                )@[strongest as int].card_in_hand@,
                player_list@[strongest as int].person == old(player_list)@[strongest as int].person,
                eaten0 == old(player_list)@[strongest as int].card_eaten@,
            decreases 5 - k,
        {
            player_list[strongest].card_eaten.push(field.cards[k].copy());
            assert(field.cards@.take(k + 1) =~= field.cards@.take(k as int).push(field.cards@[k as int]));
            k = k + 1;
        }
        assert(field.cards@.take(5) =~= field.cards@);
        strongest
    }
}

impl Friend {
    /// Whether a trick of round `roundnum` decides the partner, and then
    /// the seat it decides: the winner of the first trick (round 0) or of
    /// the last trick (round 9), when the partner is chosen that way.
    pub fn partner_after_trick(&self, roundnum: usize, winner: usize) -> (r: Option<usize>)
        ensures
            r == (if (self.how_indicate == 1 && roundnum == 0) || (self.how_indicate == 2
                && roundnum == 9) {
                Some(winner)
            } else {
                None::<usize>
            }),
    {
        if self.how_indicate == 1 && roundnum == 0 {
            return Some(winner);
        }
        if self.how_indicate == 2 && roundnum == 9 {
            return Some(winner);
        }
        None
    }
}

/// A play loses no card and makes none: the player's hand and the field
/// after the play hold the same cards as before, except the empty place that
/// the played card fills.
pub proof fn lemma_play_keeps_cards(hand: Seq<Card>, num: int, cards: Seq<Card>, p: int)
    requires
        0 <= num < hand.len(),
        0 <= p < cards.len(),
    ensures
        (hand.remove(num) + cards.update(p, hand[num])).to_multiset().insert(cards[p]) == (hand
            + cards).to_multiset(),
{
    broadcast use vstd::seq_lib::to_multiset_remove;
    broadcast use vstd::seq_lib::to_multiset_update;
    broadcast use vstd::seq_lib::lemma_multiset_commutative;
    broadcast use vstd::multiset::group_multiset_axioms;

    let x = hand[num];
    let h2 = hand.remove(num);
    let c2 = cards.update(p, x);
    vstd::seq_lib::lemma_multiset_commutative(h2, c2);
    vstd::seq_lib::lemma_multiset_commutative(hand, cards);
    vstd::seq_lib::to_multiset_remove(hand, num);
    vstd::seq_lib::to_multiset_update(cards, p, x);
    vstd::seq_lib::to_multiset_contains(hand, x);
    vstd::seq_lib::to_multiset_contains(cards, cards[p]);
    assert(hand.contains(x));
    assert(cards.contains(cards[p]));
    assert(hand.to_multiset().count(x) > 0);
    assert(cards.to_multiset().count(cards[p]) > 0);
    assert(h2.to_multiset().add(c2.to_multiset()).insert(cards[p]) =~= hand.to_multiset().add(
        cards.to_multiset(),
    ));
}

/// After `k` plays of a trick led from seat `s`, the turn is at seat
/// `s + k` (mod 5) and the seats that have not played yet still have an
/// empty place.
pub open spec fn trick_progress(s: int, k: int, cards: Seq<Card>, position: int) -> bool {
    &&& cards.len() == 5
    &&& position == (s + k) % 5
    &&& forall|i: int|
        0 <= i < 5 && (i - s + 5) % 5 >= k ==> cards[i] == (Card { shape: EMPTY_SHAPE, num: 0 })
}

/// A trick goes round the table once: a new trick led from seat `s` has
/// made no play, and each play (which fills the place of the seat whose turn
/// it is and passes the turn on) takes it from `k` plays to `k + 1`; so
/// every seat plays exactly once in a trick, in order from the leader.
pub proof fn lemma_trick_goes_round(s: int, k: int, cards: Seq<Card>, position: int, c: Card)
    requires
        0 <= s < 5,
        0 <= k < 5,
        trick_progress(s, k, cards, position),
    ensures
        trick_progress(s, k + 1, cards.update(position, c), (position + 1) % 5),
        k == 0 ==> position == s,
{
    let cards2 = cards.update(position, c);
    assert forall|i: int| 0 <= i < 5 && (i - s + 5) % 5 >= k + 1 implies cards2[i] == (Card {
        shape: EMPTY_SHAPE,
        num: 0,
    }) by {
        assert(i != position);
    }
}

/// A new trick led from seat `s` has made no play yet.
pub proof fn lemma_new_trick_progress(s: int, cards: Seq<Card>)
    requires
        0 <= s < 5,
        cards.len() == 5,
        forall|i: int| 0 <= i < 5 ==> cards[i] == (Card { shape: EMPTY_SHAPE, num: 0 }),
    ensures
        trick_progress(s, 0, cards, s),
{
}

/// Whether a joker on the field has its strength.
pub open spec fn joker_in_force(roundnum: usize, is_joker_called: bool) -> bool {
    roundnum != 0 && roundnum != 9 && !is_joker_called
}

/// When the joker has not been called, a follower may always play the
/// mighty or the joker.
pub proof fn lemma_mighty_and_joker_always_follow(
    hand: Seq<Card>,
    num: int,
    first_shape: usize,
    roundnum: usize,
    kiruda: usize,
)
    requires
        0 <= num < hand.len(),
        first_shape != EMPTY_SHAPE,
        is_mighty(hand[num], kiruda) || hand[num].shape == JOKER_SHAPE,
    ensures
        spec_check_play(hand, num, first_shape, roundnum, kiruda, false) == PlayCheck::Accept,
{
}

/// A follower who holds no card of the lead suit may play any card of its
/// hand, whatever the trump and whatever else the hand holds, unless its
/// joker has been called.
pub proof fn lemma_void_follower_plays_anything(
    hand: Seq<Card>,
    num: int,
    first_shape: usize,
    roundnum: usize,
    kiruda: usize,
    is_joker_called: bool,
)
    requires
        0 <= num < hand.len(),
        first_shape != EMPTY_SHAPE,
        forall|i: int| 0 <= i < hand.len() ==> (#[trigger] hand[i]).shape != first_shape,
        !is_joker_called || forall|i: int|
            0 <= i < hand.len() ==> (#[trigger] hand[i]).shape != JOKER_SHAPE,
    ensures
        spec_check_play(hand, num, first_shape, roundnum, kiruda, is_joker_called)
            == PlayCheck::Accept,
{
}

/// A card is refused for not following suit only when it is neither of the
/// lead suit, nor the mighty, nor the joker, and the hand holds the lead suit.
pub proof fn lemma_follow_suit_refusal(
    hand: Seq<Card>,
    num: int,
    first_shape: usize,
    roundnum: usize,
    kiruda: usize,
    is_joker_called: bool,
)
    requires
        spec_check_play(hand, num, first_shape, roundnum, kiruda, is_joker_called)
            == PlayCheck::MustFollowSuit,
    ensures
        0 <= num < hand.len(),
        exists|i: int| 0 <= i < hand.len() && hand[i].shape == first_shape,
        hand[num].shape != first_shape,
        !is_mighty(hand[num], kiruda),
        hand[num].shape != JOKER_SHAPE,
{
}

/// Once the joker is called, a player who holds it plays the joker, or the
/// mighty if it holds that too.
pub proof fn lemma_called_joker_comes_out(
    hand: Seq<Card>,
    num: int,
    first_shape: usize,
    roundnum: usize,
    kiruda: usize,
)
    requires
        exists|i: int| 0 <= i < hand.len() && hand[i].shape == JOKER_SHAPE,
        spec_check_play(hand, num, first_shape, roundnum, kiruda, true).spec_accepted(),
    ensures
        hand[num].shape == JOKER_SHAPE || (is_mighty(hand[num], kiruda) && has_mighty(
            hand,
            kiruda,
        )),
{
}

/// The mighty keeps its whole strength whether or not the joker was called:
/// its rank plus 100000, plus 100 when it is of the lead suit and 1000 when
/// it is trump.
pub proof fn lemma_mighty_strength(
    c: Card,
    first_shape: usize,
    kiruda: usize,
    roundnum: usize,
    is_joker_called: bool,
)
    requires
        is_mighty(c, kiruda),
    ensures
        card_strength(c, first_shape, kiruda, roundnum, is_joker_called) == c.num + 100000 + (if c.shape
            == first_shape {
            100int
        } else {
            0int
        }) + (if c.shape == kiruda && kiruda != NO_KIRUDA_SHAPE {
            1000int
        } else {
            0int
        }),
        card_strength(c, first_shape, kiruda, roundnum, true) == card_strength(
            c,
            first_shape,
            kiruda,
            roundnum,
            false,
        ),
{
}

/// Strength bounds of a card of rank under 13.
proof fn lemma_strength_bounds(
    c: Card,
    first_shape: usize,
    kiruda: usize,
    roundnum: usize,
    is_joker_called: bool,
)
    requires
        c.num < 13,
    ensures
        is_mighty(c, kiruda) ==> card_strength(c, first_shape, kiruda, roundnum, is_joker_called)
            >= 100000,
        !is_mighty(c, kiruda) ==> card_strength(c, first_shape, kiruda, roundnum, is_joker_called)
            < 11200,
        c.shape == JOKER_SHAPE && joker_in_force(roundnum, is_joker_called) ==> card_strength(
            c,
            first_shape,
            kiruda,
            roundnum,
            is_joker_called,
        ) >= 10000,
        !is_mighty(c, kiruda) && !(c.shape == JOKER_SHAPE && joker_in_force(
            roundnum,
            is_joker_called,
        )) ==> card_strength(c, first_shape, kiruda, roundnum, is_joker_called) < 1200,
        c.shape == kiruda && kiruda != NO_KIRUDA_SHAPE ==> card_strength(
            c,
            first_shape,
            kiruda,
            roundnum,
            is_joker_called,
        ) >= 1000,
        !is_mighty(c, kiruda) && !(c.shape == JOKER_SHAPE && joker_in_force(
            roundnum,
            is_joker_called,
        )) && !(c.shape == kiruda && kiruda != NO_KIRUDA_SHAPE) ==> card_strength(
            c,
            first_shape,
            kiruda,
            roundnum,
            is_joker_called,
        ) < 113,
        c.shape == first_shape ==> card_strength(c, first_shape, kiruda, roundnum, is_joker_called)
            >= 100,
{
}

/// The mighty takes the trick, whether or not the joker was called: when the
/// only mighty on the field is at place `m`, the trick goes to place `m`.
pub proof fn lemma_mighty_takes_trick(
    cards: Seq<Card>,
    m: int,
    w: int,
    first_shape: usize,
    kiruda: usize,
    roundnum: usize,
    is_joker_called: bool,
)
    requires
        forall|i: int| 0 <= i < cards.len() ==> (#[trigger] cards[i]).num < 13,
        0 <= m < cards.len(),
        is_mighty(cards[m], kiruda),
        forall|i: int| 0 <= i < cards.len() && i != m ==> !is_mighty(#[trigger] cards[i], kiruda),
        first_strongest(cards, w, first_shape, kiruda, roundnum, is_joker_called),
    ensures
        w == m,
{
    lemma_strength_bounds(cards[m], first_shape, kiruda, roundnum, is_joker_called);
    lemma_strength_bounds(cards[w], first_shape, kiruda, roundnum, is_joker_called);
}

/// Without the mighty on the field, a joker in force takes the trick.
pub proof fn lemma_joker_takes_trick(
    cards: Seq<Card>,
    j: int,
    w: int,
    first_shape: usize,
    kiruda: usize,
    roundnum: usize,
    is_joker_called: bool,
)
    requires
        forall|i: int| 0 <= i < cards.len() ==> (#[trigger] cards[i]).num < 13,
        forall|i: int| 0 <= i < cards.len() ==> !is_mighty(#[trigger] cards[i], kiruda),
        0 <= j < cards.len(),
        cards[j].shape == JOKER_SHAPE,
        forall|i: int|
            0 <= i < cards.len() && i != j ==> (#[trigger] cards[i]).shape != JOKER_SHAPE,
        joker_in_force(roundnum, is_joker_called),
        first_strongest(cards, w, first_shape, kiruda, roundnum, is_joker_called),
    ensures
        w == j,
{
    lemma_strength_bounds(cards[j], first_shape, kiruda, roundnum, is_joker_called);
    lemma_strength_bounds(cards[w], first_shape, kiruda, roundnum, is_joker_called);
}

/// Without the mighty or a joker in force, a trump on the field means that
/// a trump takes the trick.
pub proof fn lemma_trump_takes_trick(
    cards: Seq<Card>,
    t: int,
    w: int,
    first_shape: usize,
    kiruda: usize,
    roundnum: usize,
    is_joker_called: bool,
)
    requires
        forall|i: int| 0 <= i < cards.len() ==> (#[trigger] cards[i]).num < 13,
        forall|i: int| 0 <= i < cards.len() ==> !is_mighty(#[trigger] cards[i], kiruda),
        forall|i: int|
            0 <= i < cards.len() ==> !((#[trigger] cards[i]).shape == JOKER_SHAPE && joker_in_force(
                roundnum,
                is_joker_called,
            )),
        kiruda != NO_KIRUDA_SHAPE,
        0 <= t < cards.len(),
        cards[t].shape == kiruda,
        first_strongest(cards, w, first_shape, kiruda, roundnum, is_joker_called),
    ensures
        cards[w].shape == kiruda,
{
    lemma_strength_bounds(cards[t], first_shape, kiruda, roundnum, is_joker_called);
    lemma_strength_bounds(cards[w], first_shape, kiruda, roundnum, is_joker_called);
}

/// Without the mighty, a joker in force or a trump on the field, a card of
/// the lead suit on the field means that the lead suit takes the trick.
pub proof fn lemma_lead_suit_takes_trick(
    cards: Seq<Card>,
    l: int,
    w: int,
    first_shape: usize,
    kiruda: usize,
    roundnum: usize,
    is_joker_called: bool,
)
    requires
        forall|i: int| 0 <= i < cards.len() ==> (#[trigger] cards[i]).num < 13,
        forall|i: int| 0 <= i < cards.len() ==> !is_mighty(#[trigger] cards[i], kiruda),
        forall|i: int|
            0 <= i < cards.len() ==> !((#[trigger] cards[i]).shape == JOKER_SHAPE && joker_in_force(
                roundnum,
                is_joker_called,
            )),
        forall|i: int|
            0 <= i < cards.len() ==> !((#[trigger] cards[i]).shape == kiruda && kiruda
                != NO_KIRUDA_SHAPE),
        0 <= l < cards.len(),
        cards[l].shape == first_shape,
        first_strongest(cards, w, first_shape, kiruda, roundnum, is_joker_called),
    ensures
        cards[w].shape == first_shape,
{
    lemma_strength_bounds(cards[l], first_shape, kiruda, roundnum, is_joker_called);
    lemma_strength_bounds(cards[w], first_shape, kiruda, roundnum, is_joker_called);
}

/// The rules of the lead (no lead suit yet, the joker not called): in the
/// first trick a trump may be led only from a hand of trumps, and then the
/// lead suit stays open; otherwise a led joker lets the leader name the lead
/// suit; from the second trick on, the three of clovers (the three of spades
/// when clovers are trump) calls the joker and sets its suit as the lead
/// suit; any other card sets its own suit as the lead suit.
pub proof fn lemma_lead_rules(hand: Seq<Card>, num: int, roundnum: usize, kiruda: usize)
    requires
        0 <= num < hand.len(),
    ensures
        ({
            let c = hand[num];
            let v = spec_check_play(hand, num, EMPTY_SHAPE, roundnum, kiruda, false);
            &&& roundnum == 0 && c.shape == kiruda ==> v == if (forall|i: int|
                0 <= i < hand.len() ==> #[trigger] hand[i].shape == kiruda) {
                PlayCheck::Accept
            } else {
                PlayCheck::Refused
            }
            &&& !(roundnum == 0 && c.shape == kiruda) && c.shape == 4 ==> v == PlayCheck::LeadJoker
            &&& roundnum > 0 && c.shape != kiruda && c.shape != 4 && c.num == 1 && c.shape == (
            if kiruda == 3 {
                0usize
            } else {
                3usize
            }) ==> v == PlayCheck::CallJoker(c.shape)
            &&& roundnum > 0 && c.shape != 4 && !(c.num == 1 && c.shape == (if kiruda == 3 {
                0usize
            } else {
                3usize
            })) ==> v == PlayCheck::Lead(c.shape)
            &&& roundnum == 0 && c.shape != kiruda && c.shape != 4 ==> v == PlayCheck::Lead(c.shape)
        }),
{
}

/// A follower may always play a card of the lead suit, unless its joker has
/// been called.
pub proof fn lemma_lead_suit_follows(
    hand: Seq<Card>,
    num: int,
    first_shape: usize,
    roundnum: usize,
    kiruda: usize,
)
    requires
        0 <= num < hand.len(),
        first_shape != EMPTY_SHAPE,
        hand[num].shape == first_shape,
    ensures
        spec_check_play(hand, num, first_shape, roundnum, kiruda, false) == PlayCheck::Accept,
{
}

/// The strength of a card that is not the mighty: its rank, plus 100 when it
/// is of the lead suit, 1000 when it is of a trump suit, and, for the joker,
/// 10000 only when it is in force (not in the first or last trick, and not
/// called).
pub proof fn lemma_plain_strength(
    c: Card,
    first_shape: usize,
    kiruda: usize,
    roundnum: usize,
    is_joker_called: bool,
)
    requires
        !(c.shape == (if kiruda == 0 {
            1usize
        } else {
            0usize
        }) && c.num == 12),
    ensures
        card_strength(c, first_shape, kiruda, roundnum, is_joker_called) == c.num + (if c.shape
            == first_shape {
            100int
        } else {
            0int
        }) + (if c.shape == kiruda && kiruda != 4 {
            1000int
        } else {
            0int
        }) + (if c.shape == 4 && roundnum != 0 && roundnum != 9 && !is_joker_called {
            10000int
        } else {
            0int
        }),
{
}

} // verus!
