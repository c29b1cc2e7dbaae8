use mighty::cards::{Card, Person};
use mighty::lobby::Shared;
use mighty::table::{Field, Friend, Player};
use mighty::trick::{PlayCheck, Trick};

fn c(shape: usize, num: usize) -> Card {
    Card { shape, num }
}

fn trick_with_lead(first_shape: usize, called: bool) -> Trick {
    let mut t = Trick::new(0);
    t.field.first_shape = first_shape;
    t.is_joker_called = called;
    t
}

fn players(hands: Vec<Vec<Card>>) -> Vec<Player> {
    hands
        .into_iter()
        .enumerate()
        .map(|(i, h)| Player { person: Person { id: i as i32 + 1 }, card_in_hand: h, card_eaten: Vec::new() })
        .collect()
}

#[test]
fn no_such_card() {
    let t = Trick::new(0);
    assert_eq!(t.check_play(&vec![c(0, 1), c(1, 2)], 2, 3, 2), PlayCheck::NoSuchCard);
}

#[test]
fn called_joker_must_come_out() {
    let t = trick_with_lead(3, true);
    let hand = vec![c(4, 0), c(0, 5)];
    assert_eq!(t.check_play(&hand, 1, 3, 2), PlayCheck::MustPlayJoker);
    assert_eq!(t.check_play(&hand, 0, 3, 2), PlayCheck::Accept);
    // with trump spades the ace of spades is no mighty
    let hand = vec![c(4, 0), c(0, 12)];
    assert_eq!(t.check_play(&hand, 1, 3, 0), PlayCheck::MustPlayJoker);
}

#[test]
fn called_joker_or_mighty() {
    let t = trick_with_lead(3, true);
    let hand = vec![c(4, 0), c(0, 12), c(1, 3)];
    assert_eq!(t.check_play(&hand, 2, 3, 2), PlayCheck::MustPlayJokerOrMighty);
    assert_eq!(t.check_play(&hand, 1, 3, 2), PlayCheck::Accept);
    assert_eq!(t.check_play(&hand, 0, 3, 2), PlayCheck::Accept);
}

#[test]
fn called_without_joker_plays_normally() {
    let t = trick_with_lead(3, true);
    let hand = vec![c(3, 5), c(1, 3)];
    assert_eq!(t.check_play(&hand, 1, 3, 2), PlayCheck::MustFollowSuit);
    assert_eq!(t.check_play(&hand, 0, 3, 2), PlayCheck::Accept);
}

#[test]
fn must_follow_suit() {
    let t = trick_with_lead(1, false);
    let hand = vec![c(1, 3), c(0, 5)];
    assert_eq!(t.check_play(&hand, 1, 3, 2), PlayCheck::MustFollowSuit);
    assert_eq!(t.check_play(&hand, 0, 3, 2), PlayCheck::Accept);
}

#[test]
fn void_follower_plays_anything() {
    let t = trick_with_lead(1, false);
    let hand = vec![c(0, 5), c(3, 3)];
    assert_eq!(t.check_play(&hand, 0, 3, 2), PlayCheck::Accept);
    assert_eq!(t.check_play(&hand, 1, 3, 2), PlayCheck::Accept);
}

#[test]
fn mighty_and_joker_follow_freely() {
    let t = trick_with_lead(1, false);
    let hand = vec![c(1, 3), c(0, 12), c(4, 0)];
    assert_eq!(t.check_play(&hand, 1, 3, 2), PlayCheck::Accept);
    assert_eq!(t.check_play(&hand, 2, 3, 2), PlayCheck::Accept);
    // with trump spades the mighty is the ace of diamonds
    let hand = vec![c(1, 3), c(0, 12), c(1, 12)];
    assert_eq!(t.check_play(&hand, 1, 3, 0), PlayCheck::MustFollowSuit);
}

#[test]
fn first_trick_trump_lead() {
    let t = Trick::new(0);
    assert_eq!(t.check_play(&vec![c(2, 3), c(0, 5)], 0, 0, 2), PlayCheck::Refused);
    assert_eq!(t.check_play(&vec![c(2, 3), c(2, 5)], 0, 0, 2), PlayCheck::Accept);
    assert_eq!(t.check_play(&vec![c(2, 3), c(0, 5)], 0, 1, 2), PlayCheck::Lead(2));
    assert_eq!(t.check_play(&vec![c(2, 3), c(0, 5)], 1, 0, 2), PlayCheck::Lead(0));
}

#[test]
fn leading_the_joker_and_the_joker_call() {
    let t = Trick::new(0);
    assert_eq!(t.check_play(&vec![c(4, 0)], 0, 3, 2), PlayCheck::LeadJoker);
    assert_eq!(t.check_play(&vec![c(3, 1)], 0, 1, 2), PlayCheck::CallJoker(3));
    assert_eq!(t.check_play(&vec![c(3, 1)], 0, 0, 2), PlayCheck::Lead(3));
    assert_eq!(t.check_play(&vec![c(3, 1)], 0, 1, 3), PlayCheck::Lead(3));
    assert_eq!(t.check_play(&vec![c(0, 1)], 0, 1, 3), PlayCheck::CallJoker(0));
    assert!(Shared::lead_suit_valid(3));
    assert!(!Shared::lead_suit_valid(4));
}

#[test]
fn accepted_verdicts() {
    assert!(PlayCheck::Accept.is_accepted());
    assert!(PlayCheck::Lead(1).is_accepted());
    assert!(PlayCheck::LeadJoker.is_accepted());
    assert!(PlayCheck::CallJoker(3).is_accepted());
    assert!(!PlayCheck::NoSuchCard.is_accepted());
    assert!(!PlayCheck::MustPlayJoker.is_accepted());
    assert!(!PlayCheck::MustPlayJokerOrMighty.is_accepted());
    assert!(!PlayCheck::MustFollowSuit.is_accepted());
    assert!(!PlayCheck::Refused.is_accepted());
}

#[test]
fn playing_moves_the_card_to_the_field() {
    let mut ps = players(vec![
        vec![c(1, 3), c(0, 5)],
        vec![c(1, 9), c(2, 2)],
        vec![c(0, 1)],
        vec![c(3, 3)],
        vec![c(3, 4)],
    ]);
    let friend = Friend { how_indicate: 3, card: c(1, 9) };
    let mut friendnum = 0;
    let mut t = Trick::new(0);
    assert_eq!(t.play(&mut ps, 0, 2, 2, &friend, &mut friendnum, 0), PlayCheck::Lead(1));
    assert_eq!(t.field.first_shape, 1);
    assert_eq!(t.field.cards[0], c(1, 3));
    assert_eq!(t.position, 1);
    assert_eq!(ps[0].card_in_hand, vec![c(0, 5)]);
    assert_eq!(friendnum, 0);
    // refused: nothing changes
    assert_eq!(t.play(&mut ps, 1, 2, 2, &friend, &mut friendnum, 0), PlayCheck::MustFollowSuit);
    assert_eq!(t.position, 1);
    assert_eq!(ps[1].card_in_hand.len(), 2);
    // the partner card reveals the partner
    assert_eq!(t.play(&mut ps, 0, 2, 2, &friend, &mut friendnum, 0), PlayCheck::Accept);
    assert_eq!(friendnum, 1);
    assert_eq!(t.field.cards[1], c(1, 9));
    assert_eq!(ps[1].card_in_hand, vec![c(2, 2)]);
    assert_eq!(t.position, 2);
}

#[test]
fn leading_the_joker_names_the_suit() {
    let mut ps = players(vec![vec![], vec![], vec![], vec![c(4, 0)], vec![]]);
    let friend = Friend::new();
    let mut friendnum = 3;
    let mut t = Trick::new(3);
    assert_eq!(t.play(&mut ps, 0, 4, 2, &friend, &mut friendnum, 2), PlayCheck::LeadJoker);
    assert_eq!(t.field.first_shape, 2);
    assert_eq!(t.field.cards[3], c(4, 0));
    assert_eq!(t.position, 4);
    assert!(!t.is_joker_called);
}

#[test]
fn leading_the_joker_call_calls_the_joker() {
    let mut ps = players(vec![vec![], vec![], vec![], vec![], vec![c(3, 1)]]);
    let friend = Friend::new();
    let mut friendnum = 0;
    let mut t = Trick::new(4);
    assert_eq!(t.play(&mut ps, 0, 4, 2, &friend, &mut friendnum, 0), PlayCheck::CallJoker(3));
    assert!(t.is_joker_called);
    assert_eq!(t.field.first_shape, 3);
    assert_eq!(t.position, 0);
}

#[test]
fn card_strengths() {
    assert_eq!(Shared::card_strength(&c(2, 12), 1, 2, 3, false), 1012);
    assert_eq!(Shared::card_strength(&c(0, 12), 0, 2, 3, false), 100112);
    assert_eq!(Shared::card_strength(&c(1, 12), 0, 0, 3, false), 100012);
    assert_eq!(Shared::card_strength(&c(4, 0), 1, 2, 5, false), 10000);
    assert_eq!(Shared::card_strength(&c(4, 0), 1, 4, 5, false), 10000);
    assert_eq!(Shared::card_strength(&c(4, 0), 1, 2, 9, false), 0);
    assert_eq!(Shared::card_strength(&c(4, 0), 1, 2, 5, true), 0);
    assert_eq!(Shared::card_strength(&c(1, 7), 1, 2, 5, false), 107);
    assert_eq!(Shared::card_strength(&c(3, 7), 1, 2, 5, false), 7);
}

fn field(cards: Vec<Card>, first_shape: usize) -> Field {
    Field { cards, first_shape }
}

fn empty_players() -> Vec<Player> {
    players(vec![vec![], vec![], vec![], vec![], vec![]])
}

#[test]
fn mighty_takes_the_trick() {
    let f = field(vec![c(1, 5), c(0, 12), c(2, 12), c(4, 0), c(1, 12)], 1);
    let mut ps = empty_players();
    assert_eq!(Shared::eat_field(&f, &mut ps, &2, &3, false), 1);
    assert_eq!(ps[1].card_eaten, f.cards);
    assert!(ps[0].card_eaten.is_empty());
}

#[test]
fn joker_takes_the_trick_without_mighty() {
    let f = field(vec![c(1, 5), c(3, 4), c(2, 12), c(4, 0), c(1, 12)], 1);
    let mut ps = empty_players();
    assert_eq!(Shared::eat_field(&f, &mut ps, &2, &3, false), 3);
    assert_eq!(ps[3].card_eaten.len(), 5);
}

#[test]
fn joker_is_powerless_in_first_trick_or_when_called() {
    let f = field(vec![c(1, 5), c(3, 4), c(2, 12), c(4, 0), c(1, 12)], 1);
    let mut ps = empty_players();
    assert_eq!(Shared::eat_field(&f, &mut ps, &2, &0, false), 2);
    let mut ps = empty_players();
    assert_eq!(Shared::eat_field(&f, &mut ps, &2, &3, true), 2);
}

#[test]
fn lead_suit_takes_the_trick_without_trump() {
    let f = field(vec![c(1, 5), c(3, 4), c(0, 9), c(4, 0), c(1, 12)], 1);
    let mut ps = empty_players();
    assert_eq!(Shared::eat_field(&f, &mut ps, &2, &0, false), 4);
}

#[test]
fn ties_go_to_the_first_place() {
    let f = field(vec![c(0, 4), c(1, 7), c(3, 7), c(2, 2), c(4, 0)], 5);
    let mut ps = empty_players();
    assert_eq!(Shared::eat_field(&f, &mut ps, &4, &0, false), 1);
}

#[test]
fn a_trick_goes_round_the_table_once() {
    let mut ps = players(vec![vec![c(1, 2)], vec![c(1, 6)], vec![c(1, 9)], vec![c(0, 3)], vec![c(1, 11)]]);
    let friend = Friend::new();
    let mut friendnum = 0;
    let mut t = Trick::new(2);
    let mut order = Vec::new();
    for _ in 0..5 {
        order.push(t.position);
        assert!(t.play(&mut ps, 0, 4, 2, &friend, &mut friendnum, 0).is_accepted());
    }
    assert_eq!(order, vec![2, 3, 4, 0, 1]);
    assert_eq!(t.position, 2);
    assert_eq!(t.field.cards, vec![c(1, 2), c(1, 6), c(1, 9), c(0, 3), c(1, 11)]);
    assert!(ps.iter().all(|p| p.card_in_hand.is_empty()));
    assert_eq!(Shared::eat_field(&t.field, &mut ps, &2, &4, t.is_joker_called), 4);
    assert_eq!(ps[4].card_eaten.len(), 5);
}

#[test]
fn eat_field_with_more_than_five_players() {
    let f = field(vec![c(1, 5), c(3, 4), c(0, 9), c(4, 0), c(1, 12)], 1);
    let mut ps = players(vec![vec![], vec![], vec![], vec![], vec![], vec![c(2, 2)]]);
    assert_eq!(Shared::eat_field(&f, &mut ps, &2, &0, false), 4);
    assert_eq!(ps.len(), 6);
    assert_eq!(ps[4].card_eaten, f.cards);
    assert_eq!(ps[5].card_in_hand, vec![c(2, 2)]);
    assert!(ps[5].card_eaten.is_empty());
}
