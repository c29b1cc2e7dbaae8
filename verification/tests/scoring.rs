use mighty::cards::{Card, Person};
use mighty::lobby::Shared;
use mighty::table::Player;

fn c(shape: usize, num: usize) -> Card {
    Card { shape, num }
}

fn taker(id: i32, eaten: Vec<Card>) -> Player {
    Player { person: Person { id }, card_in_hand: Vec::new(), card_eaten: eaten }
}

#[test]
fn points_are_jacks_to_aces() {
    let j = taker(1, vec![c(0, 9), c(1, 8), c(2, 12), c(4, 0)]);
    let f = taker(2, vec![c(3, 10)]);
    assert_eq!(Shared::score_calc(&j, &f), 3);
    assert_eq!(Shared::score_calc(&j, &j), 4);
    assert_eq!(Shared::score_calc(&taker(3, vec![]), &taker(4, vec![])), 0);
}

#[test]
fn shown_cards_are_suit_cards_from_ten() {
    let eaten = vec![c(0, 9), c(1, 8), c(2, 7), c(4, 0), c(3, 12)];
    assert_eq!(Shared::shown_cards(&eaten), vec![c(0, 9), c(1, 8), c(3, 12)]);
}

#[test]
fn show_eaten_hides_the_presidents_side() {
    let ps = vec![
        taker(1, vec![c(0, 9)]),
        taker(2, vec![c(1, 10)]),
        taker(3, vec![c(2, 11), c(2, 1)]),
        taker(4, vec![]),
        taker(5, vec![c(4, 0), c(3, 8)]),
    ];
    let shown = Shared::show_eaten(&ps, 0, 1);
    assert_eq!(shown.len(), 5);
    assert!(shown[0].is_empty());
    assert!(shown[1].is_empty());
    assert_eq!(shown[2], vec![c(2, 11)]);
    assert!(shown[3].is_empty());
    assert_eq!(shown[4], vec![c(3, 8)]);
}

fn total(s: &[usize; 5]) -> usize {
    s.iter().sum()
}

#[test]
fn made_contract_pays_the_president_and_partner() {
    let mut s = [100; 5];
    let mut dealer = 9;
    assert!(Shared::settle_allowed(&s, 16, 15, 2, 0, 1));
    assert!(Shared::settle(&mut s, &mut dealer, 16, 15, 2, 0, 1));
    assert_eq!(s, [108, 104, 96, 96, 96]);
    assert_eq!(dealer, 1);
    assert_eq!(total(&s), 500);
}

#[test]
fn no_trump_doubles_the_stake() {
    let mut s = [100; 5];
    let mut dealer = 0;
    assert!(Shared::settle(&mut s, &mut dealer, 16, 15, 4, 2, 3));
    assert_eq!(s, [92, 92, 116, 108, 92]);
    assert_eq!(total(&s), 500);
}

#[test]
fn lone_president_takes_four_stakes() {
    let mut s = [100; 5];
    let mut dealer = 0;
    assert!(Shared::settle(&mut s, &mut dealer, 18, 16, 2, 2, 2));
    assert_eq!(s, [92, 92, 132, 92, 92]);
    assert_eq!(dealer, 2);
    assert_eq!(total(&s), 500);
}

#[test]
fn failed_contract_pays_the_others() {
    let mut s = [100; 5];
    let mut dealer = 0;
    assert!(!Shared::settle(&mut s, &mut dealer, 12, 15, 2, 0, 1));
    assert_eq!(s, [94, 97, 103, 103, 103]);
    assert_eq!(dealer, 1);
    assert_eq!(total(&s), 500);
}

#[test]
fn bad_defeat_doubles_and_passes_the_deal_to_the_president() {
    let mut s = [100; 5];
    let mut dealer = 0;
    assert!(!Shared::settle(&mut s, &mut dealer, 8, 14, 2, 3, 1));
    assert_eq!(s, [112, 88, 112, 76, 112]);
    assert_eq!(dealer, 3);
    assert_eq!(total(&s), 500);
}

#[test]
fn settling_that_would_leave_machine_numbers_is_refused() {
    assert!(!Shared::settle_allowed(&[0; 5], 16, 15, 2, 0, 1));
    assert!(!Shared::settle_allowed(&[100; 5], 13, 13, 4, 0, 1));
    assert!(!Shared::settle_allowed(&[0, 0, 100, 100, 100], 12, 15, 2, 0, 1));
    assert!(Shared::settle_allowed(&[0, 0, 100, 100, 100], 16, 15, 2, 0, 1));
    assert!(!Shared::settle_allowed(&[usize::MAX, 100, 100, 100, 100], 16, 15, 2, 0, 1));
}

#[test]
fn final_winner_is_the_first_best() {
    assert_eq!(Shared::final_winner(&[3, 7, 7, 1, 0]), 1);
    assert_eq!(Shared::final_winner(&[5, 5, 5, 5, 5]), 0);
    assert_eq!(Shared::final_winner(&[0, 0, 0, 0, 9]), 4);
}

#[test]
fn contract_made_at_the_announced_points() {
    assert!(Shared::contract_made(15, 15));
    assert!(Shared::contract_made(16, 15));
    assert!(!Shared::contract_made(14, 15));
}
