use mighty::cards::{Card, Person};
use mighty::lobby::Shared;
use mighty::table::{Field, Friend, Player};

fn player(hand: Vec<Card>) -> Player {
    Player { person: Person { id: 1 }, card_in_hand: hand, card_eaten: Vec::new() }
}

#[test]
fn president_takes_the_cards_under_the_deck() {
    let mut p = player(vec![Card { shape: 0, num: 1 }]);
    let under = vec![Card { shape: 1, num: 2 }, Card { shape: 4, num: 0 }, Card { shape: 3, num: 12 }];
    p.take_under_deck(&under);
    assert_eq!(p.card_in_hand, vec![
        Card { shape: 0, num: 1 },
        Card { shape: 1, num: 2 },
        Card { shape: 4, num: 0 },
        Card { shape: 3, num: 12 },
    ]);
    assert!(p.card_eaten.is_empty());
}

#[test]
fn discard_moves_a_card_to_the_taken_pile() {
    let mut p = player(vec![Card { shape: 0, num: 1 }, Card { shape: 2, num: 5 }, Card { shape: 3, num: 9 }]);
    assert!(!p.discard(0));
    assert!(!p.discard(4));
    assert_eq!(p.card_in_hand.len(), 3);
    assert!(p.discard(2));
    assert_eq!(p.card_in_hand, vec![Card { shape: 0, num: 1 }, Card { shape: 3, num: 9 }]);
    assert_eq!(p.card_eaten, vec![Card { shape: 2, num: 5 }]);
    assert!(p.discard(2));
    assert_eq!(p.card_eaten, vec![Card { shape: 2, num: 5 }, Card { shape: 3, num: 9 }]);
}

#[test]
fn new_field_is_empty() {
    let f = Field::new();
    assert_eq!(f.cards.len(), 5);
    assert!(f.cards.iter().all(|c| *c == Card { shape: 5, num: 0 }));
    assert_eq!(f.first_shape, 5);
}

#[test]
fn partner_choices() {
    let f = Friend::new();
    assert_eq!(f.how_indicate, 0);
    assert_eq!(f.card, Card { shape: 5, num: 0 });
    assert!(Friend::method_valid(3));
    assert!(!Friend::method_valid(4));
    assert_eq!(Friend::card_choice(4, 99), Some(Card { shape: 4, num: 0 }));
    assert_eq!(Friend::card_choice(2, 12), Some(Card { shape: 2, num: 12 }));
    assert_eq!(Friend::card_choice(2, 13), None);
    assert_eq!(Friend::card_choice(5, 0), None);
}

#[test]
fn partner_revealed_by_its_card_only_when_chosen_by_card() {
    let by_card = Friend { how_indicate: 3, card: Card { shape: 1, num: 12 } };
    assert!(by_card.revealed_by(&Card { shape: 1, num: 12 }));
    assert!(!by_card.revealed_by(&Card { shape: 1, num: 11 }));
    let first = Friend { how_indicate: 1, card: Card { shape: 1, num: 12 } };
    assert!(!first.revealed_by(&Card { shape: 1, num: 12 }));
}

#[test]
fn partner_by_first_or_last_trick() {
    let first = Friend { how_indicate: 1, card: Card { shape: 5, num: 0 } };
    assert_eq!(first.partner_after_trick(0, 3), Some(3));
    assert_eq!(first.partner_after_trick(1, 3), None);
    let last = Friend { how_indicate: 2, card: Card { shape: 5, num: 0 } };
    assert_eq!(last.partner_after_trick(0, 3), None);
    assert_eq!(last.partner_after_trick(9, 4), Some(4));
    let none = Friend::new();
    assert_eq!(none.partner_after_trick(9, 4), None);
}

#[test]
fn deal_players_seats_the_persons() {
    let persons: Vec<Person> = (1..=5).map(|id| Person { id }).collect();
    let (players, under) = Shared::deal_players(&persons);
    assert_eq!(players.len(), 5);
    assert_eq!(under.len(), 3);
    for (i, p) in players.iter().enumerate() {
        assert_eq!(p.person, Person { id: i as i32 + 1 });
        assert_eq!(p.card_in_hand.len(), 10);
        assert!(p.card_eaten.is_empty());
    }
    let mut all: Vec<(usize, usize)> = players
        .iter()
        .flat_map(|p| p.card_in_hand.iter().map(|c| (c.shape, c.num)))
        .chain(under.iter().map(|c| (c.shape, c.num)))
        .collect();
    all.sort();
    all.dedup();
    assert_eq!(all.len(), 53);
}
