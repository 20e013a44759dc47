use eurus::deps::{random_password, random_token, to_signed};
use eurus::repository::{
    insert_room, kind_name, DataRepository, RepError, RepReq, RepResp, RoomEntry, Step, StoreOp,
    StoreOutcome, UserEntry, UserKind, REQUEST_QUEUE_CAPACITY,
};
use std::collections::VecDeque;

const ROOM: [u8; 12] = [7; 12];
const NEW: [u8; 12] = [8; 12];

#[test]
fn a_room_is_inserted_empty_under_the_password_at_hand() {
    let mut rep = DataRepository::new();
    assert_eq!(
        rep.serve_with(RepReq::CreateRoom { players_limit: 4 }, -12),
        Step::Store(StoreOp::InsertRoom { room_pass: -12, players_limit: 4, curr_players: 0 })
    );
    assert_eq!(
        insert_room(0, 1),
        Step::Store(StoreOp::InsertRoom { room_pass: 1, players_limit: 0, curr_players: 0 })
    );
    assert!(!rep.closing());
}

#[test]
fn a_room_with_more_seats_than_the_store_can_count_is_refused() {
    if usize::MAX as u128 > i64::MAX as u128 {
        assert_eq!(insert_room(usize::MAX, 1), Step::Reply(Err(RepError::StoreError)));
        assert_eq!(
            insert_room(i64::MAX as usize + 1, 1),
            Step::Reply(Err(RepError::StoreError))
        );
        assert_eq!(
            insert_room(i64::MAX as usize, 1),
            Step::Store(StoreOp::InsertRoom {
                room_pass: 1,
                players_limit: i64::MAX,
                curr_players: 0
            })
        );
    }
}

#[test]
fn every_request_has_its_step() {
    let mut rep = DataRepository::new();
    assert_eq!(
        rep.serve_with(RepReq::RemoveRoom { room_id: ROOM }, 0),
        Step::Store(StoreOp::RemoveRoom { room_id: ROOM })
    );
    assert_eq!(
        rep.serve_with(RepReq::CreateRuntimeUser { room_id: ROOM }, 5),
        Step::Store(StoreOp::InsertUser { password: 5, kind: UserKind::Runtime, room_id: ROOM })
    );
    assert_eq!(
        rep.serve_with(RepReq::CreatePlayerUser { room_id: ROOM }, 6),
        Step::Store(StoreOp::InsertUser { password: 6, kind: UserKind::Player, room_id: ROOM })
    );
    assert!(!rep.closing());
    assert_eq!(rep.serve_with(RepReq::Close, 0), Step::Shutdown);
    assert!(rep.closing());
    assert_eq!(rep.remove_room(ROOM), Step::Store(StoreOp::RemoveRoom { room_id: ROOM }));
    assert!(rep.closing());
}

#[test]
fn the_steps_with_a_password_drawn_at_random() {
    let mut rep = DataRepository::new();
    match rep.serve(RepReq::CreateRoom { players_limit: 2 }) {
        Step::Store(StoreOp::InsertRoom { players_limit, curr_players, .. }) => {
            assert_eq!(players_limit, 2);
            assert_eq!(curr_players, 0);
        }
        other => panic!("{:?}", other),
    }
    match rep.create_room(3) {
        Step::Store(StoreOp::InsertRoom { players_limit, curr_players, .. }) => {
            assert_eq!(players_limit, 3);
            assert_eq!(curr_players, 0);
        }
        other => panic!("{:?}", other),
    }
    match rep.create_rt_user(ROOM) {
        Step::Store(StoreOp::InsertUser { kind, room_id, .. }) => {
            assert_eq!(kind, UserKind::Runtime);
            assert_eq!(room_id, ROOM);
        }
        other => panic!("{:?}", other),
    }
    match rep.create_player_user(ROOM) {
        Step::Store(StoreOp::InsertUser { kind, room_id, .. }) => {
            assert_eq!(kind, UserKind::Player);
            assert_eq!(room_id, ROOM);
        }
        other => panic!("{:?}", other),
    }
    assert_eq!(rep.serve(RepReq::Close), Step::Shutdown);
    assert!(rep.closing());
}

#[test]
fn the_answer_follows_from_what_the_store_did() {
    let insert = StoreOp::InsertRoom { room_pass: 9, players_limit: 2, curr_players: 0 };
    assert_eq!(
        DataRepository::answer(insert, StoreOutcome::Inserted(NEW)),
        Ok(RepResp::RoomCreated(RoomEntry {
            id: NEW,
            password: 9,
            players_limit: 2,
            current_players: 0
        }))
    );
    assert_eq!(DataRepository::answer(insert, StoreOutcome::Failed), Err(RepError::StoreError));
    assert_eq!(DataRepository::answer(insert, StoreOutcome::Removed), Err(RepError::StoreError));
    let remove = StoreOp::RemoveRoom { room_id: ROOM };
    assert_eq!(DataRepository::answer(remove, StoreOutcome::Removed), Ok(RepResp::RoomRemoved));
    assert_eq!(DataRepository::answer(remove, StoreOutcome::Failed), Err(RepError::StoreError));
    assert_eq!(
        DataRepository::answer(remove, StoreOutcome::Inserted(NEW)),
        Err(RepError::StoreError)
    );
    let user = StoreOp::InsertUser { password: 3, kind: UserKind::Player, room_id: ROOM };
    assert_eq!(
        DataRepository::answer(user, StoreOutcome::Inserted(NEW)),
        Ok(RepResp::UserCreated(UserEntry { username: NEW, password: 3 }))
    );
    assert_eq!(DataRepository::answer(user, StoreOutcome::Failed), Err(RepError::StoreError));
    let odd = StoreOp::InsertRoom { room_pass: 9, players_limit: -1, curr_players: 0 };
    assert_eq!(
        DataRepository::answer(odd, StoreOutcome::Inserted(NEW)),
        Err(RepError::StoreError)
    );
}

#[test]
fn what_is_queued_before_close_is_served_and_then_the_actor_returns() {
    let mut rep = DataRepository::new();
    let mut queue: VecDeque<RepReq> = VecDeque::new();
    let mut open = true;
    let mut replies = Vec::new();
    queue.push_back(RepReq::CreateRoom { players_limit: 2 });
    queue.push_back(RepReq::Close);
    queue.push_back(RepReq::RemoveRoom { room_id: NEW });
    let mut turns = 0;
    loop {
        let req = match queue.pop_front() {
            Some(req) => req,
            None if !open => break,
            None => panic!("the actor would wait"),
        };
        turns += 1;
        let reply = match rep.serve_with(req, 11) {
            Step::Store(op) => {
                let outcome = match op {
                    StoreOp::InsertRoom { .. } | StoreOp::InsertUser { .. } => {
                        StoreOutcome::Inserted(NEW)
                    }
                    StoreOp::RemoveRoom { .. } => StoreOutcome::Removed,
                };
                DataRepository::answer(op, outcome)
            }
            Step::Reply(reply) => reply,
            Step::Shutdown => {
                open = false;
                Ok(RepResp::ClosingRepository)
            }
        };
        replies.push(reply);
        if !open && queue.len() < REQUEST_QUEUE_CAPACITY {
            // a request offered now is not taken
        }
    }
    assert_eq!(turns, 3);
    assert!(rep.closing());
    assert_eq!(
        replies,
        vec![
            Ok(RepResp::RoomCreated(RoomEntry {
                id: NEW,
                password: 11,
                players_limit: 2,
                current_players: 0
            })),
            Ok(RepResp::ClosingRepository),
            Ok(RepResp::RoomRemoved),
        ]
    );
}

#[test]
fn a_record_starts_without_players() {
    let entry = RoomEntry::new(NEW, 1, 2);
    assert_eq!(
        entry,
        RoomEntry { id: NEW, password: 1, players_limit: 2, current_players: 0 }
    );
}

#[test]
fn the_kinds_of_users_have_their_names() {
    assert_eq!(kind_name(UserKind::Runtime), "rt");
    assert_eq!(kind_name(UserKind::Player), "player");
    assert_eq!(REQUEST_QUEUE_CAPACITY, 256);
}

#[test]
fn the_bits_of_a_number_read_as_signed() {
    assert_eq!(to_signed(0), 0);
    assert_eq!(to_signed(1), 1);
    assert_eq!(to_signed(i64::MAX as u64), i64::MAX);
    assert_eq!(to_signed(1u64 << 63), i64::MIN);
    assert_eq!(to_signed(u64::MAX), -1);
    assert_eq!(to_signed(u64::MAX - 41), -42);
}

#[test]
fn what_is_drawn_at_random_varies() {
    let passwords: Vec<i64> = (0..64).map(|_| random_password()).collect();
    assert!(passwords.iter().any(|p| *p != passwords[0]));
    let tokens: Vec<usize> = (0..64).map(|_| random_token()).collect();
    assert!(tokens.iter().any(|t| *t != tokens[0]));
}
