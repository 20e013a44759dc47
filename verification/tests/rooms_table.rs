use eurus::room::{RoomData, RoomsRepository};

#[test]
fn a_room_takes_the_slot_of_its_number() {
    let rd = RoomData::new(5);
    assert_eq!(rd.id, 5);
    assert_eq!(RoomData::with_pass(3, 99), RoomData { id: 3, pass: 99 });
}

#[test]
fn the_passwords_of_new_rooms_vary() {
    let first = RoomData::new(0).pass;
    assert!((0..64).any(|_| RoomData::new(0).pass != first));
}

#[test]
fn a_new_table_is_empty() {
    let rep = RoomsRepository::new();
    assert_eq!(rep.slots(), 0);
    assert_eq!(rep.slot(0), None);
}

#[test]
fn rooms_fill_the_table_in_order() {
    let mut rep = RoomsRepository::new();
    let a = rep.create_room_with(10);
    let b = rep.create_room_with(11);
    let c = rep.create_room();
    assert_eq!(a, RoomData { id: 0, pass: 10 });
    assert_eq!(b, RoomData { id: 1, pass: 11 });
    assert_eq!(c.id, 2);
    assert_eq!(rep.slots(), 3);
    assert_eq!(rep.slot(0), Some(a));
    assert_eq!(rep.slot(1), Some(b));
    assert_eq!(rep.slot(2), Some(c));
    assert_eq!(rep.slot(3), None);
}

#[test]
fn the_slot_of_a_removed_room_is_given_out_again() {
    let mut rep = RoomsRepository::new();
    let a = rep.create_room_with(10);
    let b = rep.create_room_with(11);
    let c = rep.create_room_with(12);
    rep.remove(b);
    assert_eq!(rep.slots(), 3);
    assert_eq!(rep.slot(0), Some(a));
    assert_eq!(rep.slot(1), None);
    assert_eq!(rep.slot(2), Some(c));
    let d = rep.create_room_with(13);
    assert_eq!(d, RoomData { id: 1, pass: 13 });
    assert_eq!(rep.slot(1), Some(d));
    let e = rep.create_room_with(14);
    assert_eq!(e.id, 3);
}

#[test]
fn removing_a_room_that_is_not_there_changes_nothing() {
    let mut rep = RoomsRepository::new();
    let a = rep.create_room_with(10);
    rep.remove(RoomData { id: 0, pass: 11 });
    rep.remove(RoomData { id: 7, pass: 10 });
    assert_eq!(rep.slots(), 1);
    assert_eq!(rep.slot(0), Some(a));
    rep.remove(a);
    assert_eq!(rep.slot(0), None);
    rep.remove(a);
    assert_eq!(rep.slots(), 1);
    assert_eq!(rep.slot(0), None);
}

#[test]
fn a_room_created_and_removed_leaves_the_others_where_they_were() {
    let mut rep = RoomsRepository::new();
    let a = rep.create_room_with(1);
    let b = rep.create_room_with(2);
    let c = rep.create_room();
    rep.remove(c);
    assert_eq!(rep.slot(0), Some(a));
    assert_eq!(rep.slot(1), Some(b));
    assert_eq!(rep.slot(2), None);
}
