use mighty::lobby::Shared;

#[test]
fn joining_numbers_players_by_room() {
    let mut s = Shared::new();
    let a = String::from("a");
    let b = String::from("b");
    assert_eq!(s.getnum(&a), 0);
    assert_eq!(s.join(a.clone()), (1, 0));
    assert_eq!(s.join(a.clone()), (2, 1));
    assert_eq!(s.join(b.clone()), (1, 2));
    assert_eq!(s.join(a.clone()), (3, 3));
    assert_eq!(s.getnum(&a), 3);
    assert_eq!(s.getnum(&b), 1);
    assert_eq!(s.len(), 4);
}

#[test]
fn room_is_full_at_five() {
    let mut s = Shared::new();
    let r = String::from("room");
    for k in 0..4 {
        s.join(r.clone());
        assert!(!s.room_is_full(&r), "after {} joins", k + 1);
    }
    s.join(r.clone());
    assert!(s.room_is_full(&r));
    s.join(r.clone());
    assert!(!s.room_is_full(&r));
    assert_eq!(s.getnum(&r), 6);
}

#[test]
fn dm_target_finds_the_slot_of_a_player() {
    let mut s = Shared::new();
    let a = String::from("a");
    let b = String::from("b");
    s.join(a.clone());
    s.join(b.clone());
    s.join(a.clone());
    assert_eq!(s.dm_target(&a, 1), Some(0));
    assert_eq!(s.dm_target(&b, 1), Some(1));
    assert_eq!(s.dm_target(&a, 2), Some(2));
    assert_eq!(s.dm_target(&b, 2), None);
    assert_eq!(s.dm_target(&String::from("c"), 1), None);
}

#[test]
fn message_targets_orders_one_to_five() {
    let mut s = Shared::new();
    let a = String::from("a");
    let b = String::from("b");
    s.movedata(a.clone(), 3);
    s.movedata(b.clone(), 1);
    s.movedata(a.clone(), 1);
    s.movedata(a.clone(), 6);
    s.movedata(a.clone(), 5);
    assert_eq!(s.message_targets(&a), vec![2, 0, 4]);
    assert_eq!(s.message_targets(&b), vec![1]);
    assert_eq!(s.message_targets(&String::from("z")), Vec::<usize>::new());
}

#[test]
fn movedata_keeps_one_slot_per_key() {
    let mut s = Shared::new();
    let a = String::from("a");
    assert_eq!(s.movedata(a.clone(), 1), 0);
    assert_eq!(s.movedata(a.clone(), 2), 1);
    assert_eq!(s.movedata(a.clone(), 1), 0);
    assert_eq!(s.len(), 2);
    assert_eq!(s.getnum(&a), 2);
}

#[test]
fn a_room_can_take_a_newcomer() {
    let mut s = Shared::new();
    let a = String::from("a");
    assert_eq!(s.room_size(&a), 0);
    s.join(a.clone());
    s.join(String::from("b"));
    s.join(a.clone());
    assert_eq!(s.room_size(&a), 2);
}
