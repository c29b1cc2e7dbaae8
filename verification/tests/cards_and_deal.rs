use mighty::cards::{friend_indicate_name, num_name, shape_name, Card, Person};
use mighty::lobby::Shared;

fn all_dealt(hands: &(Vec<Card>, Vec<Card>, Vec<Card>, Vec<Card>, Vec<Card>, Vec<Card>)) -> Vec<(usize, usize)> {
    let mut all = Vec::new();
    for h in [&hands.0, &hands.1, &hands.2, &hands.3, &hands.4, &hands.5] {
        for c in h.iter() {
            all.push((c.shape, c.num));
        }
    }
    all
}

#[test]
fn copies_are_equal() {
    let c = Card { shape: 2, num: 7 };
    assert_eq!(c.copy(), Card { shape: 2, num: 7 });
    let p = Person { id: 4 };
    assert_eq!(p.copy(), Person { id: 4 });
}

#[test]
fn names_of_suits_ranks_and_partner_choices() {
    assert_eq!(shape_name(0), "spade");
    assert_eq!(shape_name(1), "diamond");
    assert_eq!(shape_name(2), "heart");
    assert_eq!(shape_name(3), "clover");
    assert_eq!(shape_name(4), "none");
    assert_eq!(num_name(0), "2");
    assert_eq!(num_name(8), "10");
    assert_eq!(num_name(9), "J");
    assert_eq!(num_name(12), "A");
    assert_eq!(friend_indicate_name(0), "none");
    assert_eq!(friend_indicate_name(1), "first turn");
    assert_eq!(friend_indicate_name(2), "last turn");
    assert_eq!(friend_indicate_name(3), "by card");
}

#[test]
fn joker_strength_only_in_middle_rounds() {
    assert_eq!(Shared::is_joker_avaliable(&0), 0);
    assert_eq!(Shared::is_joker_avaliable(&9), 0);
    assert_eq!(Shared::is_joker_avaliable(&1), 1);
    assert_eq!(Shared::is_joker_avaliable(&5), 1);
}

#[test]
fn mighty_and_joker_call_move_with_trump() {
    assert_eq!(Shared::is_mighty_affected(&0), 1);
    assert_eq!(Shared::is_mighty_affected(&1), 0);
    assert_eq!(Shared::is_mighty_affected(&4), 0);
    assert_eq!(Shared::is_jokercall_affected(&3), 1);
    assert_eq!(Shared::is_jokercall_affected(&0), 0);
}

#[test]
fn deal_by_identity_order() {
    let order: Vec<usize> = (0..53).collect();
    let hands = Shared::deal_by_order(&order);
    assert_eq!(hands.0.len(), 10);
    assert_eq!(hands.5.len(), 3);
    assert_eq!(hands.0[0], Card { shape: 0, num: 0 });
    assert_eq!(hands.0[9], Card { shape: 0, num: 9 });
    assert_eq!(hands.1[0], Card { shape: 0, num: 10 });
    assert_eq!(hands.1[3], Card { shape: 1, num: 0 });
    assert_eq!(hands.4[9], Card { shape: 3, num: 10 });
    assert_eq!(hands.5[0], Card { shape: 3, num: 11 });
    assert_eq!(hands.5[1], Card { shape: 3, num: 12 });
    assert_eq!(hands.5[2], Card { shape: 4, num: 0 });
}

#[test]
fn deal_by_reversed_order() {
    let order: Vec<usize> = (0..53).rev().collect();
    let hands = Shared::deal_by_order(&order);
    assert_eq!(hands.0[0], Card { shape: 4, num: 0 });
    assert_eq!(hands.0[1], Card { shape: 3, num: 12 });
    assert_eq!(hands.5[2], Card { shape: 0, num: 0 });
}

#[test]
fn shuffled_order_is_a_permutation() {
    for _ in 0..20 {
        let (order, _) = Shared::shuffled_order();
        assert_eq!(order.len(), 53);
        let mut seen = [false; 53];
        for x in order {
            assert!(x < 53);
            assert!(!seen[x]);
            seen[x] = true;
        }
    }
}

#[test]
fn divid_cards_deals_every_card_once() {
    for _ in 0..20 {
        let hands = Shared::divid_cards();
        assert_eq!(hands.0.len(), 10);
        assert_eq!(hands.1.len(), 10);
        assert_eq!(hands.2.len(), 10);
        assert_eq!(hands.3.len(), 10);
        assert_eq!(hands.4.len(), 10);
        assert_eq!(hands.5.len(), 3);
        let mut all = all_dealt(&hands);
        all.sort();
        let mut deck: Vec<(usize, usize)> = Vec::new();
        for s in 0..4 {
            for n in 0..13 {
                deck.push((s, n));
            }
        }
        deck.push((4, 0));
        assert_eq!(all, deck);
    }
}

#[test]
fn divid_cards_is_shuffled() {
    let first = all_dealt(&Shared::divid_cards());
    let mut differs = false;
    for _ in 0..10 {
        if all_dealt(&Shared::divid_cards()) != first {
            differs = true;
        }
    }
    assert!(differs);
}

#[test]
fn deal_by_rotated_order() {
    let order: Vec<usize> = (0..53).map(|i| (i + 13) % 53).collect();
    let hands = Shared::deal_by_order(&order);
    assert_eq!(hands.0[0], Card { shape: 1, num: 0 });
    assert_eq!(hands.5[2], Card { shape: 0, num: 12 });
}

#[test]
fn card_labels() {
    assert_eq!(Shared::card_label(&Card { shape: 4, num: 0 }), "joker");
    assert_eq!(Shared::card_label(&Card { shape: 0, num: 12 }), "spade A");
    assert_eq!(Shared::card_label(&Card { shape: 3, num: 8 }), "clover 10");
}

#[test]
fn keep_new_draw_skips_repeats() {
    let mut order = vec![5, 2];
    Shared::keep_new_draw(&mut order, 7);
    assert_eq!(order, vec![5, 2, 7]);
    Shared::keep_new_draw(&mut order, 2);
    assert_eq!(order, vec![5, 2, 7]);
}

#[test]
fn deal_from_ascending_draws() {
    let draws: Vec<usize> = (0..53).collect();
    let hands = Shared::deal_from_draws(&draws).expect("all numbers drawn");
    let expected0: Vec<Card> = (0..10).map(|n| Card { shape: 0, num: n }).collect();
    assert_eq!(hands.0, expected0);
    let mut expected1: Vec<Card> = (10..13).map(|n| Card { shape: 0, num: n }).collect();
    expected1.extend((0..7).map(|n| Card { shape: 1, num: n }));
    assert_eq!(hands.1, expected1);
    assert_eq!(hands.5, vec![Card { shape: 3, num: 11 }, Card { shape: 3, num: 12 }, Card { shape: 4, num: 0 }]);
}

#[test]
fn deal_from_draws_keeps_first_occurrences() {
    // 52 first, then repeats, then the rest in decreasing order
    let mut draws: Vec<usize> = vec![52, 52, 0, 52, 0];
    draws.extend((1..52).rev());
    draws.push(3);
    let hands = Shared::deal_from_draws(&draws).expect("all numbers drawn");
    assert_eq!(hands.0[0], Card { shape: 4, num: 0 });
    assert_eq!(hands.0[1], Card { shape: 0, num: 0 });
    assert_eq!(hands.0[2], Card { shape: 3, num: 12 });
    assert_eq!(hands.5, vec![Card { shape: 0, num: 3 }, Card { shape: 0, num: 2 }, Card { shape: 0, num: 1 }]);
}

#[test]
fn deal_from_draws_needs_every_number() {
    let draws: Vec<usize> = (0..52).chain(0..52).collect();
    assert!(Shared::deal_from_draws(&draws).is_none());
    assert!(Shared::deal_from_draws(&vec![]).is_none());
}
