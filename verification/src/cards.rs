use vstd::prelude::*;
use vstd::string::*;

use crate::lobby::Shared;

verus! {

/// Cards of one suit (the two up to the ace).
pub const SHAPE_SIZE: usize = 13;
/// Suit of the joker.
pub const JOKER_SHAPE: usize = 4;
/// Marker suit of a field slot that is still empty, or of a trick without a lead suit.
pub const EMPTY_SHAPE: usize = 5;
/// The trump value that means "no trump suit".
pub const NO_KIRUDA_SHAPE: usize = 4;
/// Suit of the mighty (the ace of spades), unless spades are trump.
pub const MIGHTY_SHAPE: usize = 0;
/// Rank of the mighty: the ace.
pub const MIGHTY_NUM: usize = 12;
/// Suit of the joker call (the three of clovers), unless clovers are trump.
pub const JOKERCALL_SHAPE: usize = 3;
/// Rank of the joker call: the three.
pub const JOKERCALL_NUM: usize = 1;
/// Strength bonus of a trump card.
pub const KIRUDA_COEF: usize = 1000;
/// Strength bonus of a card of the lead suit.
pub const FIRST_SHAPE_COEF: usize = 100;
/// Strength bonus of the mighty.
pub const MIGHTY_COEF: usize = 100000;
/// Strength bonus of a joker that is in force.
pub const JOKER_COEF: usize = 10000;
/// Points over which a won contract pays.
pub const LEAST_EAT_NUM: usize = 14;
/// Lowest rank shown when taken cards are listed (the ten).
pub const LEAST_SCORE_NUM: usize = 8;
/// Points at or under which the president's side is beaten badly.
pub const BACKRUN_NUM: usize = 10;
/// Partner choice "by card".
pub const CARD_FRIEND_NUM: usize = 3;
/// Number of ways of choosing the partner.
pub const FRIEND_INDICATE_LEN: usize = 4;
/// Cards in the deck: four suits and the joker.
pub const DECK_SIZE: usize = 53;

/// A player, known by the order in which it joined its room (1 to 5).
#[derive(Debug, PartialEq, Eq, Structural)]
pub struct Person {
    pub id: i32,
}

impl Person {
    /// A copy of this person.
    pub fn copy(&self) -> (r: Person)
        ensures
            r == *self,
    {
        Person { id: self.id }
    }
}

/// A card: suit 0 spade, 1 diamond, 2 heart, 3 clover, 4 joker; rank 0 is
/// the two and 12 the ace. Suit 5 marks an empty place on the field.
#[derive(Debug, PartialEq, Eq, Structural)]
pub struct Card {
    pub shape: usize,
    pub num: usize,
}

impl Card {
    /// A copy of this card.
    pub fn copy(&self) -> (r: Card)
        ensures
            r == *self,
    {
        Card { shape: self.shape, num: self.num }
    }
}

/// The card numbered `i` in the deck: thirteen cards to a suit, the joker last.
pub open spec fn card_at(i: int) -> Card {
    Card { shape: (i / 13) as usize, num: (i % 13) as usize }
}

/// The cards of the deck: the 52 suit cards and the joker (suit 4, rank 0).
pub open spec fn is_deck_card(c: Card) -> bool {
    (c.shape < 4 && c.num < 13) || (c.shape == 4 && c.num == 0)
}

/// The suit of the mighty: the ace of spades, or the ace of diamonds when spades are trump.
pub open spec fn mighty_shape(kiruda: usize) -> usize {
    if kiruda == MIGHTY_SHAPE {
        1
    } else {
        0
    }
}

pub open spec fn is_mighty(c: Card, kiruda: usize) -> bool {
    c.shape == mighty_shape(kiruda) && c.num == MIGHTY_NUM
}

/// The suit of the joker call: the three of clovers, or the three of spades
/// when clovers are trump.
pub open spec fn jokercall_shape(kiruda: usize) -> usize {
    if kiruda == JOKERCALL_SHAPE {
        0
    } else {
        3
    }
}

pub open spec fn is_jokercall(c: Card, kiruda: usize) -> bool {
    c.shape == jokercall_shape(kiruda) && c.num == JOKERCALL_NUM
}

pub open spec fn spec_shape_name(shape: usize) -> Seq<char> {
    if shape == 0 {
        "spade"@
    } else if shape == 1 {
        "diamond"@
    } else if shape == 2 {
        "heart"@
    } else if shape == 3 {
        "clover"@
    } else {
        "none"@
    }
}

pub open spec fn spec_num_name(num: usize) -> Seq<char> {
    if num == 0 {
        "2"@
    } else if num == 1 {
        "3"@
    } else if num == 2 {
        "4"@
    } else if num == 3 {
        "5"@
    } else if num == 4 {
        "6"@
    } else if num == 5 {
        "7"@
    } else if num == 6 {
        "8"@
    } else if num == 7 {
        "9"@
    } else if num == 8 {
        "10"@
    } else if num == 9 {
        "J"@
    } else if num == 10 {
        "Q"@
    } else if num == 11 {
        "K"@
    } else {
        "A"@
    }
}

pub open spec fn spec_friend_indicate_name(how: usize) -> Seq<char> {
    if how == 0 {
        "none"@
    } else if how == 1 {
        "first turn"@
    } else if how == 2 {
        "last turn"@
    } else {
        "by card"@
    }
}

/// The name of suit `shape`; suit 4 is named "none" (no trump).
pub fn shape_name(shape: usize) -> (s: &'static str)
    requires
        shape < 5,
    ensures
        s@ == spec_shape_name(shape),
{
    if shape == 0 {
        "spade"
    } else if shape == 1 {
        "diamond"
    } else if shape == 2 {
        "heart"
    } else if shape == 3 {
        "clover"
    } else {
        "none"
    }
}

/// The name of rank `num`.
pub fn num_name(num: usize) -> (s: &'static str)
    requires
        num < 13,
    ensures
        s@ == spec_num_name(num),
{
    if num == 0 {
        "2"
    } else if num == 1 {
        "3"
    } else if num == 2 {
        "4"
    } else if num == 3 {
        "5"
    } else if num == 4 {
        "6"
    } else if num == 5 {
        "7"
    } else if num == 6 {
        "8"
    } else if num == 7 {
        "9"
    } else if num == 8 {
        "10"
    } else if num == 9 {
        "J"
    } else if num == 10 {
        "Q"
    } else if num == 11 {
        "K"
    } else {
        "A"
    }
}

/// The name of partner choice `how`.
pub fn friend_indicate_name(how: usize) -> (s: &'static str)
    requires
        how < 4,
    ensures
        s@ == spec_friend_indicate_name(how),
{
    if how == 0 {
        "none"
    } else if how == 1 {
        "first turn"
    } else if how == 2 {
        "last turn"
    } else {
        "by card"
    }
}

/// How a card is written: "joker", or the suit and the rank separated by a space.
pub open spec fn spec_card_label(c: Card) -> Seq<char> {
    if c.shape == JOKER_SHAPE {
        "joker"@
    } else {
        spec_shape_name(c.shape) + " "@ + spec_num_name(c.num)
    }
}

impl Shared {
    /// 1 when the joker has its strength in round `roundnum`: every round
    /// but the first (0) and the last (9).
    pub fn is_joker_avaliable(roundnum: &usize) -> (n: usize)
        ensures
            n == (if *roundnum == 0 || *roundnum == 9 {
                0usize
            } else {
                1usize
            }),
    {
        let mut n: usize = 1;
        if *roundnum == 0 || *roundnum == 9 {
            n = 0;
        }
        n
    }

    /// 1 when trump `kiruda` moves the mighty off spades.
    pub fn is_mighty_affected(kiruda: &usize) -> (n: usize)
        ensures
            n == (if *kiruda == MIGHTY_SHAPE {
                1usize
            } else {
                0usize
            }),
            MIGHTY_SHAPE + n == mighty_shape(*kiruda),
    {
        let mut n: usize = 0;
        if *kiruda == MIGHTY_SHAPE {
            n = 1;
        }
        n
    }

    /// 1 when trump `kiruda` moves the joker call off clovers.
    pub fn is_jokercall_affected(kiruda: &usize) -> (n: usize)
        ensures
            n == (if *kiruda == JOKERCALL_SHAPE {
                1usize
            } else {
                0usize
            }),
            (JOKERCALL_SHAPE + n) % 4 == jokercall_shape(*kiruda),
    {
        let mut n: usize = 0;
        if *kiruda == JOKERCALL_SHAPE {
            n = 1;
        }
        n
    }

    /// How `card` is written.
    pub fn card_label(card: &Card) -> (s: String)
        requires
            card.shape <= 4,
            card.shape < 4 ==> card.num < 13,
        ensures
            s@ == spec_card_label(*card),
    {
        if card.shape == JOKER_SHAPE {
            String::from_str("joker")
        } else {
            let mut s = String::from_str(shape_name(card.shape));
            s.append(" ");
            s.append(num_name(card.num));
            s
        }
    }
}

} // verus!
