use eurus::config::{Config, Db, Mqtt, Runtime as RuntimeConfig};
use eurus::message::{ErrResponse, Request, Response};
use eurus::room::model::{Room, RoomState};
use eurus::room::runtime::Runtime;
use eurus::service::Command;

fn runtime_settings() -> Config {
    Config {
        mqtt: Mqtt {
            host: "tcp://localhost:1883".to_string(),
            user: "u".to_string(),
            password: "p".to_string(),
        },
        db: Db {
            host: "mongodb://localhost".to_string(),
            user: "u".to_string(),
            password: "p".to_string(),
            database: "eurus".to_string(),
            users_collection: "users".to_string(),
            rooms_collection: "rooms".to_string(),
        },
        runtime: RuntimeConfig { server_address: "127.0.0.1:3000".to_string() },
    }
}

#[test]
fn a_runtime_holds_the_room_it_was_given() {
    let runtime = Runtime::new(Room::new([9; 12], 3, 2, 1), runtime_settings());
    assert_eq!(runtime.current().id, [9; 12]);
    assert_eq!(runtime.current().pass, 3);
    assert_eq!(runtime.current().state, RoomState::AcceptingPlayers);
}

#[test]
fn a_request_on_the_topic_of_a_seat_is_from_that_player() {
    let mut runtime = Runtime::new(Room::new([9; 12], 3, 1, 1), runtime_settings());
    assert_eq!(
        runtime.process_msg("0", Request::JoinRoom),
        Command::Response(Response::NewPlayerJoined)
    );
    assert_eq!(runtime.current().current_players(), 1);
    assert_eq!(
        runtime.process_msg("0", Request::AddQuestion),
        Command::Response(Response::QuestionAdded)
    );
    assert_eq!(runtime.process_msg("0", Request::AddAnswer), Command::Response(Response::NewRound));
    assert_eq!(runtime.process_msg("0", Request::AddAnswer), Command::Skip);
    assert_eq!(
        runtime.process_msg("0", Request::SelectAnswer),
        Command::Response(Response::GameScore)
    );
    assert_eq!(runtime.current().state, RoomState::Dead);
}

#[test]
fn a_request_on_the_shared_topic_is_from_the_room() {
    let mut runtime = Runtime::new(Room::new([9; 12], 3, 0, 1), runtime_settings());
    assert_eq!(
        runtime.process_msg("rt", Request::GetRoomState),
        Command::Response(Response::RoomState)
    );
    assert_eq!(
        runtime.process_msg("rt", Request::JoinRoom),
        Command::Response(Response::Error(ErrResponse::QuestionLimitReached))
    );
    assert_eq!(
        runtime.process_msg("3", Request::GetRoomState),
        Command::Response(Response::Priv(3, Box::new(Response::RoomState)))
    );
}

#[test]
fn a_request_from_nobody_is_passed_over() {
    let mut runtime = Runtime::new(Room::new([9; 12], 3, 2, 1), runtime_settings());
    for player in ["", "x", "01", "-1", "RT", "rt "] {
        assert_eq!(runtime.process_msg(player, Request::JoinRoom), Command::Skip);
        assert_eq!(runtime.process_msg(player, Request::GetRoomState), Command::Skip);
    }
    assert_eq!(runtime.current().current_players(), 0);
}

#[test]
fn the_settings_are_copied_whole() {
    let c = runtime_settings();
    let d = c.clone();
    assert_eq!(d.mqtt.host, "tcp://localhost:1883");
    assert_eq!(d.mqtt.user, c.mqtt.user);
    assert_eq!(d.mqtt.password, c.mqtt.password);
    assert_eq!(d.db.host, c.db.host);
    assert_eq!(d.db.user, c.db.user);
    assert_eq!(d.db.password, c.db.password);
    assert_eq!(d.db.database, "eurus");
    assert_eq!(d.db.users_collection, "users");
    assert_eq!(d.db.rooms_collection, "rooms");
    assert_eq!(d.runtime.server_address, "127.0.0.1:3000");
}
