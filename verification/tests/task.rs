use eurus::client::{CONN_RETRIES, RETRY_WAIT_MS};
use eurus::config::{Config, Db, Mqtt, Runtime as RuntimeConfig};
use eurus::message::{Request, Response};
use eurus::repository::RoomEntry;
use eurus::room::model::{RoomState, RoundState};
use eurus::service::{
    handle_resp, parse_msg, Command, Delivery, InternalRoomId, Link, RoomData, RoomTask,
    RuntimeError, TaskAction, TaskEvent,
};

const ID: [u8; 12] = [0xff; 12];
const NAME: &str = "////////////////";

fn task_settings() -> Config {
    Config {
        mqtt: Mqtt { host: "h".to_string(), user: "u".to_string(), password: "p".to_string() },
        db: Db {
            host: "h".to_string(),
            user: "u".to_string(),
            password: "p".to_string(),
            database: "d".to_string(),
            users_collection: "users".to_string(),
            rooms_collection: "rooms".to_string(),
        },
        runtime: RuntimeConfig { server_address: "127.0.0.1:3000".to_string() },
    }
}

fn task(name: &str, players: usize, rounds: usize) -> RoomTask {
    let entry = RoomEntry { id: [1; 12], password: 5, players_limit: players, current_players: 0 };
    RoomTask::new(RoomData::named(entry, players, rounds, name.to_string()), task_settings())
}

fn message(topic: &str, payload: &str) -> TaskEvent {
    TaskEvent::Delivered(Delivery { topic: topic.to_string(), payload: payload.to_string() })
}

fn send(task: RoomTask, topic: &str, payload: &str) -> (RoomTask, TaskAction) {
    task.handle(message(topic, payload))
}

fn published(topic: &str, payload: &str) -> TaskAction {
    TaskAction::Publish(eurus::client::Publication {
        topic: topic.to_string(),
        payload: payload.to_string(),
        qos: 2,
    })
}

#[test]
fn the_name_of_a_room_is_its_identifier_in_base64() {
    let entry = RoomEntry { id: ID, password: 5, players_limit: 1, current_players: 0 };
    let rd = RoomData::new(entry, 1, 2);
    assert_eq!(rd.id_as_base64(), NAME);
    assert_eq!(rd.label(), format!("Room({})", NAME));
    let id = rd.internal_id();
    assert_eq!(id.id, ID);
    assert_eq!(id.as_base64(), NAME);
    assert_eq!(id.label(), format!("Room({})", NAME));
    let room = rd.into();
    assert_eq!(room.id, ID);
    assert_eq!(room.pass, 5);
    assert_eq!(room.players_limit, 1);
    assert_eq!(room.rounds_limit, 2);
    let zero = RoomData::new(
        RoomEntry { id: [0; 12], password: 5, players_limit: 1, current_players: 0 },
        1,
        2,
    );
    assert_eq!(zero.id_as_base64(), "AAAAAAAAAAAAAAAA");
    let made = InternalRoomId::new([3; 12], "x".to_string());
    assert_eq!(made.id, [3; 12]);
    assert_eq!(made.as_base64, "x");
}

#[test]
fn a_player_who_joins_is_announced_on_the_shared_topic() {
    let t = task("abc", 2, 1);
    assert_eq!(t.runtime().current().current_players(), 0);
    let (t, action) = send(t, "rooms/abc/0/write", "\"JoinRoom\"");
    assert_eq!(action, published("rooms/abc/rt/read", "\"NewPlayerJoined\""));
    assert_eq!(t.runtime().current().current_players(), 1);
    assert_eq!(t.link_state(), Link::Listening);
}

#[test]
fn a_second_answer_is_refused_to_the_player_alone() {
    let t = task("abc", 2, 1);
    let (t, _) = send(t, "rooms/abc/0/write", "\"JoinRoom\"");
    let (t, _) = send(t, "rooms/abc/1/write", "\"JoinRoom\"");
    let (t, action) = send(t, "rooms/abc/1/write", "\"AddQuestion\"");
    assert_eq!(action, published("rooms/abc/rt/read", "\"QuestionAdded\""));
    assert_eq!(t.runtime().current().state, RoomState::Playing);
    let (t, action) = send(t, "rooms/abc/0/write", "\"AddAnswer\"");
    assert_eq!(action, TaskAction::Listen);
    let (t, action) = send(t, "rooms/abc/0/write", "\"AddAnswer\"");
    assert_eq!(action, published("rooms/abc/0/read", "{\"Err\":\"AnswerAlreadySent\"}"));
    let room = t.runtime().current();
    let round = room.curr_round.as_ref().unwrap();
    assert_eq!(round.answers.len(), 1);
    assert_eq!(round.state, RoundState::AcceptingAnswers);
}

#[test]
fn what_is_no_request_is_passed_over() {
    let t = task("abc", 2, 1);
    for (topic, payload) in [
        ("rooms/abc/0/write", "JoinRoom"),
        ("rooms/abc/0/write", ""),
        ("rooms/abc/0/write", "{\"JoinRoom\":1}"),
        ("rooms/abc", "\"JoinRoom\""),
        ("rooms/abc/x/write", "\"JoinRoom\""),
        ("", "\"JoinRoom\""),
    ] {
        let (next, action) = task("abc", 2, 1).handle(message(topic, payload));
        assert_eq!(action, TaskAction::Listen);
        assert_eq!(next.runtime().current().current_players(), 0);
    }
    assert_eq!(t.runtime().current().current_players(), 0);
}

#[test]
fn the_state_of_the_room_goes_to_the_one_who_asks() {
    let t = task("abc", 2, 1);
    let (t, action) = send(t, "rooms/abc/1/write", " \"GetRoomState\"\n");
    assert_eq!(action, published("rooms/abc/1/read", "\"RoomState\""));
    let (_, action) = send(t, "rooms/abc/rt/write", "\"GetRoomState\"");
    assert_eq!(action, published("rooms/abc/rt/read", "\"RoomState\""));
}

#[test]
fn a_reset_that_leaves_the_client_connected_is_passed_over() {
    let (t, action) = task("abc", 2, 1).handle(TaskEvent::Reset { connected: true });
    assert_eq!(action, TaskAction::Listen);
    assert_eq!(t.link_state(), Link::Listening);
}

#[test]
fn a_reset_is_followed_by_a_try_to_reconnect() {
    let (t, action) = task("abc", 2, 1).handle(TaskEvent::Reset { connected: false });
    assert_eq!(action, TaskAction::Reconnect);
    assert_eq!(t.link_state(), Link::Reconnecting { attempts: 1, waiting: false });
    let (t, action) = t.handle(TaskEvent::Reconnected(true));
    assert_eq!(action, TaskAction::Listen);
    assert_eq!(t.link_state(), Link::Listening);
}

#[test]
fn twelve_tries_are_made_5000_ms_apart_and_then_the_task_stops() {
    assert_eq!(CONN_RETRIES, 12);
    assert_eq!(RETRY_WAIT_MS, 5000);
    let (mut t, action) = task("abc", 2, 1).handle(TaskEvent::Reset { connected: false });
    assert_eq!(action, TaskAction::Reconnect);
    let mut tries = 1;
    let mut waits = 0;
    loop {
        let (next, action) = t.handle(TaskEvent::Reconnected(false));
        t = next;
        match action {
            TaskAction::Wait(millis) => {
                assert_eq!(millis, 5000);
                waits += 1;
                let (next, action) = t.handle(TaskEvent::Waited);
                t = next;
                assert_eq!(action, TaskAction::Reconnect);
                tries += 1;
                assert_eq!(t.link_state(), Link::Reconnecting { attempts: tries, waiting: false });
            }
            TaskAction::Stop(reason) => {
                assert_eq!(reason, Some("channel died".to_string()));
                break;
            }
            other => panic!("{:?}", other),
        }
    }
    assert_eq!(tries, 12);
    assert_eq!(waits, 11);
    assert_eq!(t.link_state(), Link::Stopped);
}

#[test]
fn the_eleventh_try_may_still_succeed() {
    let (mut t, _) = task("abc", 2, 1).handle(TaskEvent::Reset { connected: false });
    for _ in 0..10 {
        let (next, action) = t.handle(TaskEvent::Reconnected(false));
        assert_eq!(action, TaskAction::Wait(5000));
        let (next, action) = next.handle(TaskEvent::Waited);
        assert_eq!(action, TaskAction::Reconnect);
        t = next;
    }
    let (t, action) = t.handle(TaskEvent::Reconnected(true));
    assert_eq!(action, TaskAction::Listen);
    assert_eq!(t.link_state(), Link::Listening);
    let (_, action) = send(t, "rooms/abc/0/write", "\"JoinRoom\"");
    assert_eq!(action, published("rooms/abc/rt/read", "\"NewPlayerJoined\""));
}

#[test]
fn a_task_that_has_stopped_stays_stopped() {
    let (mut t, _) = task("abc", 2, 1).handle(TaskEvent::Reset { connected: false });
    for _ in 0..11 {
        let (next, _) = t.handle(TaskEvent::Reconnected(false));
        let (next, _) = next.handle(TaskEvent::Waited);
        t = next;
    }
    let (mut t, action) = t.handle(TaskEvent::Reconnected(false));
    assert!(matches!(action, TaskAction::Stop(_)));
    for event in [
        message("rooms/abc/0/write", "\"JoinRoom\""),
        TaskEvent::Reset { connected: false },
        TaskEvent::Reset { connected: true },
        TaskEvent::Reconnected(true),
        TaskEvent::Waited,
    ] {
        let (next, action) = t.handle(event);
        assert_eq!(action, TaskAction::Stop(None));
        assert_eq!(next.link_state(), Link::Stopped);
        assert_eq!(next.runtime().current().current_players(), 0);
        t = next;
    }
}

#[test]
fn news_that_nobody_waits_for_changes_nothing() {
    let (t, action) = task("abc", 2, 1).handle(TaskEvent::Waited);
    assert_eq!(action, TaskAction::Listen);
    assert_eq!(t.link_state(), Link::Listening);
    let (t, action) = t.handle(TaskEvent::Reconnected(false));
    assert_eq!(action, TaskAction::Listen);
    assert_eq!(t.link_state(), Link::Listening);
    let (t, _) = t.handle(TaskEvent::Reset { connected: false });
    let (t, action) = t.handle(TaskEvent::Waited);
    assert_eq!(action, TaskAction::Listen);
    assert_eq!(t.link_state(), Link::Reconnecting { attempts: 1, waiting: false });
    let (t, _) = t.handle(TaskEvent::Reconnected(false));
    let (t, action) = t.handle(TaskEvent::Reconnected(false));
    assert_eq!(action, TaskAction::Listen);
    assert_eq!(t.link_state(), Link::Reconnecting { attempts: 1, waiting: true });
}

#[test]
fn a_command_is_carried_out_on_the_topics_of_the_room() {
    let id = InternalRoomId::new([0; 12], "QQ==".to_string());
    assert_eq!(handle_resp(&id, Command::Skip), TaskAction::Listen);
    assert_eq!(
        handle_resp(&id, Command::Abort(Some("enough".to_string()))),
        TaskAction::Stop(Some("enough".to_string()))
    );
    assert_eq!(handle_resp(&id, Command::Abort(None)), TaskAction::Stop(None));
    assert_eq!(
        handle_resp(&id, Command::Response(Response::GameScore)),
        published("rooms/QQ==/rt/read", "\"GameScore\"")
    );
    assert_eq!(
        handle_resp(&id, Command::Response(Response::Priv(4, Box::new(Response::NewRound)))),
        published("rooms/QQ==/4/read", "\"NewRound\"")
    );
    assert_eq!(
        handle_resp(
            &id,
            Command::Response(Response::Priv(
                4,
                Box::new(Response::Priv(5, Box::new(Response::NewRound)))
            ))
        ),
        published("rooms/QQ==/4/read", "{\"Priv\":[5,\"NewRound\"]}")
    );
}

#[test]
fn what_the_broker_delivers_is_a_request_or_a_fault() {
    assert_eq!(parse_msg(None), Err(RuntimeError::ConnectionReset));
    assert_eq!(
        parse_msg(Some(Delivery { topic: "t".to_string(), payload: "\"AddAnswer\"".to_string() })),
        Ok(("t".to_string(), Request::AddAnswer))
    );
    let fault =
        parse_msg(Some(Delivery { topic: "t".to_string(), payload: "AddAnswer".to_string() }));
    assert_eq!(fault, Err(RuntimeError::MsgDecodingError("AddAnswer".to_string())));
    assert_eq!(fault.unwrap_err().message(), "could not decode message AddAnswer");
    assert_eq!(RuntimeError::ConnectionReset.message(), "connection was reset");
}
