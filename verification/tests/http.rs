use eurus::http::{
    error_response, refuse, room_created, route, Refusal, Route, BAD_REQUEST,
    INTERNAL_SERVER_ERROR, NOT_FOUND, OK,
};
use eurus::repository::RoomEntry;
use eurus::service::dto::NewRoomResp;

#[test]
fn only_post_new_room_leads_somewhere() {
    assert_eq!(route("POST", "/new_room"), Route::NewRoom);
    for (method, path) in [
        ("GET", "/new_room"),
        ("post", "/new_room"),
        ("POST", "/new_room/"),
        ("POST", "/"),
        ("POST", "new_room"),
        ("", ""),
        ("POST", "/new_rooms"),
    ] {
        assert_eq!(route(method, path), Route::NotFound, "{} {}", method, path);
    }
}

#[test]
fn a_body_that_says_nothing_about_the_room_is_answered_400() {
    let reply = refuse(Refusal::Decode);
    assert_eq!(reply.status, 400);
    assert_eq!(reply.body, "{\"error\":\"could not decode message\"}");
}

#[test]
fn every_refusal_has_its_status_and_its_words() {
    let reply = refuse(Refusal::Assemble);
    assert_eq!(reply.status, BAD_REQUEST);
    assert_eq!(reply.body, "{\"error\":\"could not assemble message\"}");
    let reply = refuse(Refusal::Internal);
    assert_eq!(reply.status, INTERNAL_SERVER_ERROR);
    assert_eq!(reply.status, 500);
    assert_eq!(reply.body, "{\"error\":\"internal server error\"}");
    let reply = refuse(Refusal::NotFound);
    assert_eq!(reply.status, NOT_FOUND);
    assert_eq!(reply.status, 404);
    assert_eq!(reply.body, "{\"error\":\"not found\"}");
    assert_eq!(OK, 200);
}

#[test]
fn the_body_of_an_error_names_it() {
    let reply = error_response("teapot", 418);
    assert_eq!(reply.status, 418);
    assert_eq!(reply.body, "{\"error\":\"teapot\"}");
    let read: serde_json::Value = serde_json::from_str(&reply.body).unwrap();
    let mut expected = serde_json::Map::new();
    expected.insert("error".to_string(), serde_json::Value::String("teapot".to_string()));
    assert_eq!(read, serde_json::Value::Object(expected));
}

#[test]
fn a_room_that_was_created_is_answered_with_its_name_and_password() {
    let entry =
        RoomEntry { id: *b"hello world!", password: 123456789, players_limit: 2, current_players: 0 };
    let reply = room_created(&NewRoomResp::from(&entry));
    assert_eq!(reply.status, 200);
    assert_eq!(reply.body, "{\"id\":\"aGVsbG8gd29ybGQh\",\"password\":123456789}");
    let reply = room_created(&NewRoomResp::new("a\"b".to_string(), i64::MIN));
    assert_eq!(reply.body, "{\"id\":\"a\\\"b\",\"password\":-9223372036854775808}");
}

#[test]
fn the_answer_for_a_room_is_the_json_that_a_json_reader_expects() {
    for (name, password) in [
        ("+/v7+/v7+/v7+/v7", 0i64),
        ("", -1),
        ("tab\there \\ \"quoted\" \u{1} \u{1f} \u{7f} \u{e9} \n", i64::MAX),
    ] {
        let reply = room_created(&NewRoomResp::new(name.to_string(), password));
        let read: serde_json::Value = serde_json::from_str(&reply.body).unwrap();
        let mut expected = serde_json::Map::new();
        expected.insert("id".to_string(), serde_json::Value::String(name.to_string()));
        expected.insert(
            "password".to_string(),
            serde_json::Value::Number(serde_json::Number::from(password)),
        );
        assert_eq!(read, serde_json::Value::Object(expected.clone()));
        assert_eq!(
            reply.body,
            format!(
                "{{\"id\":{},\"password\":{}}}",
                serde_json::to_string(&serde_json::Value::String(name.to_string())).unwrap(),
                password
            )
        );
    }
}
