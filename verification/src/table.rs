use vstd::prelude::*;

use crate::cards::{Card, Person, CARD_FRIEND_NUM, EMPTY_SHAPE, FRIEND_INDICATE_LEN, JOKER_SHAPE, SHAPE_SIZE};
use crate::deal::{deals_from, order_from_draws};
use crate::lobby::Shared;

verus! {

/// A seated player: its hand, and the cards it has taken.
pub struct Player {
    pub person: Person,
    pub card_in_hand: Vec<Card>,
    pub card_eaten: Vec<Card>,
}

/// The cards of the current trick, one place per seat, and the lead suit
/// (`EMPTY_SHAPE` until a lead is made).
pub struct Field {
    pub cards: Vec<Card>,
    pub first_shape: usize,
}

/// How the president's partner is chosen: 0 none, 1 the winner of the first
/// trick, 2 the winner of the last trick, 3 the holder of `card`.
pub struct Friend {
    pub how_indicate: usize,
    pub card: Card,
}

impl Player {
    /// Takes the first three cards under the deck into the hand.
    pub fn take_under_deck(&mut self, under_deck: &Vec<Card>)
        requires
            under_deck@.len() >= 3,
        ensures
            final(self).card_in_hand@ == old(self).card_in_hand@ + under_deck@.take(3),
            final(self).card_eaten@ == old(self).card_eaten@,
            final(self).person == old(self).person,
    {
        let mut i: usize = 0;
        while i < 3
            invariant
                i <= 3,
                under_deck@.len() >= 3,
                self.card_in_hand@ == old(self).card_in_hand@ + under_deck@.take(i as int),
                self.card_eaten@ == old(self).card_eaten@,
                self.person == old(self).person,
            decreases 3 - i,
        {
            self.card_in_hand.push(under_deck[i].copy());
            assert(under_deck@.take(i + 1) =~= under_deck@.take(i as int).push(under_deck@[i as int]));
            i = i + 1;
        }
    }

    /// Discards the card at position `num` of the hand, counted from 1, onto
    /// the taken cards. A number outside 1 to the hand's size is refused and
    /// changes nothing.
    pub fn discard(&mut self, num: usize) -> (accepted: bool)
        ensures
            accepted == (1 <= num <= old(self).card_in_hand@.len()),
            accepted ==> final(self).card_in_hand@ == old(self).card_in_hand@.remove(num - 1)
                && final(self).card_eaten@ == old(self).card_eaten@.push(
                old(self).card_in_hand@[num - 1],
            ),
            !accepted ==> final(self).card_in_hand@ == old(self).card_in_hand@
                && final(self).card_eaten@ == old(self).card_eaten@,
            final(self).person == old(self).person,
    {
        if num <= self.card_in_hand.len() && num > 0 {
            let c = self.card_in_hand[num - 1].copy();
            self.card_eaten.push(c);
            self.card_in_hand.remove(num - 1);
            true
        } else {
            false
        }
    }
}

impl Field {
    /// An empty field: five empty places and no lead suit.
    pub fn new() -> (f: Field)
        ensures
            f.cards@.len() == 5,
            forall|i: int| 0 <= i < 5 ==> f.cards@[i] == (Card { shape: EMPTY_SHAPE, num: 0 }),
            f.first_shape == EMPTY_SHAPE,
    {
        let f = Field {
            cards: vec![
                Card { shape: 5, num: 0 },
                Card { shape: 5, num: 0 },
                Card { shape: 5, num: 0 },
                Card { shape: 5, num: 0 },
                Card { shape: 5, num: 0 },
            ],
            first_shape: 5,
        };
        f
    }
}

/// The partner card chosen by suit `shape` and rank `num`: the joker for
/// suit 4 (whatever the rank), a suit card for a suit under 4 and a rank
/// under 13, and none otherwise.
pub open spec fn spec_friend_card(shape: usize, num: usize) -> Option<Card> {
    if shape == JOKER_SHAPE {
        Some(Card { shape: JOKER_SHAPE, num: 0 })
    } else if shape < 4 && num < 13 {
        Some(Card { shape, num })
    } else {
        None
    }
}

impl Friend {
    /// No partner chosen yet.
    pub fn new() -> (f: Friend)
        ensures
            f.how_indicate == 0,
            f.card == (Card { shape: EMPTY_SHAPE, num: 0 }),
    {
        Friend { how_indicate: 0, card: Card { shape: EMPTY_SHAPE, num: 0 } }
    }

    /// Whether `how` is one of the four ways of choosing the partner.
    pub fn method_valid(how: usize) -> (r: bool)
        ensures
            r == (how < 4),
    {
        how < FRIEND_INDICATE_LEN
    }

    /// The partner card that suit `shape` and rank `num` name, if any.
    pub fn card_choice(shape: usize, num: usize) -> (r: Option<Card>)
        ensures
            r == spec_friend_card(shape, num),
    {
        if shape == JOKER_SHAPE {
            Some(Card { shape: JOKER_SHAPE, num: 0 })
        } else if shape < 4 && num < SHAPE_SIZE {
            Some(Card { shape, num })
        } else {
            None
        }
    }

    /// Whether playing `card` reveals the partner: the partner is chosen by
    /// card and `card` is that card.
    pub fn revealed_by(&self, card: &Card) -> (r: bool)
        ensures
            r == (self.how_indicate == CARD_FRIEND_NUM && self.card == *card),
    {
        self.how_indicate == CARD_FRIEND_NUM && self.card.shape == card.shape && self.card.num
            == card.num
    }
}

impl Shared {
    /// Deals a new game to the first five persons of `person_list`: player
    /// `i` is person `i` with the `i`-th hand and nothing taken; the three
    /// cards under the deck come second.
    pub fn deal_players(person_list: &Vec<Person>) -> (r: (Vec<Player>, Vec<Card>))
        requires
            person_list@.len() >= 5,
        ensures
            r.0@.len() == 5,
            forall|i: int| 0 <= i < 5 ==> r.0@[i].person == person_list@[i],
            forall|i: int| 0 <= i < 5 ==> r.0@[i].card_eaten@.len() == 0,
            exists|draws: Seq<usize>, order: Seq<usize>|
                order_from_draws(draws, order) && deals_from(
                    order,
                    (
                        r.0@[0].card_in_hand@,
                        r.0@[1].card_in_hand@,
                        r.0@[2].card_in_hand@,
                        r.0@[3].card_in_hand@,
                        r.0@[4].card_in_hand@,
                        r.1@,
                    ),
                ),
    {
        let (a1, a2, a3, a4, a5, under_deck) = Shared::divid_cards();
        let player_list: Vec<Player> = vec![
            Player { person: person_list[0].copy(), card_in_hand: a1, card_eaten: Vec::new() },
            Player { person: person_list[1].copy(), card_in_hand: a2, card_eaten: Vec::new() },
            Player { person: person_list[2].copy(), card_in_hand: a3, card_eaten: Vec::new() },
            Player { person: person_list[3].copy(), card_in_hand: a4, card_eaten: Vec::new() },
            Player { person: person_list[4].copy(), card_in_hand: a5, card_eaten: Vec::new() },
        ];
        (player_list, under_deck)
    }
}

} // verus!
