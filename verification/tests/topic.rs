use eurus::room::model::Sender;
use eurus::topic::{
    client_id, default_subscriptions, lwt_payload, lwt_topic, parse_sender, player_from_topic,
    topic, topic_field, topic_sender, Direction, ROOM_CHANNEL_PREFIX,
};

#[test]
fn topics_read_prefix_room_who_direction() {
    assert_eq!(topic("rooms", "abc", Sender::Global, Direction::Write), "rooms/abc/rt/write");
    assert_eq!(topic("rooms", "abc", Sender::Global, Direction::Read), "rooms/abc/rt/read");
    assert_eq!(topic("rooms", "abc", Sender::Player(0), Direction::Write), "rooms/abc/0/write");
    assert_eq!(topic("p", "r", Sender::Player(17), Direction::Read), "p/r/17/read");
    assert_eq!(ROOM_CHANNEL_PREFIX, "rooms");
}

#[test]
fn a_runtime_listens_on_the_shared_topic_and_on_every_seat() {
    assert_eq!(
        default_subscriptions("rooms", "AbCd", 2),
        vec![
            "rooms/AbCd/rt/write".to_string(),
            "rooms/AbCd/0/write".to_string(),
            "rooms/AbCd/1/write".to_string(),
        ]
    );
    assert_eq!(default_subscriptions("rooms", "x", 0), vec!["rooms/x/rt/write".to_string()]);
    assert_eq!(default_subscriptions("rooms", "x", 12).len(), 13);
    assert_eq!(default_subscriptions("rooms", "x", 12)[12], "rooms/x/11/write");
}

#[test]
fn the_last_will_names_the_room() {
    assert_eq!(lwt_topic("QUJD"), "test/room/QUJD");
    assert_eq!(lwt_payload("QUJD"), "Room rt QUJD lost connection");
    assert_eq!(client_id("QUJD"), "room-rt-QUJD");
}

#[test]
fn the_third_field_of_a_topic_names_the_sender() {
    assert_eq!(topic_sender("rooms/abc/rt/write"), Some(Sender::Global));
    assert_eq!(topic_sender("rooms/abc/0/write"), Some(Sender::Player(0)));
    assert_eq!(topic_sender("rooms/abc/41/write"), Some(Sender::Player(41)));
    assert_eq!(topic_sender("rooms/abc/41"), Some(Sender::Player(41)));
    assert_eq!(topic_sender("rooms/abc"), None);
    assert_eq!(topic_sender(""), None);
    assert_eq!(topic_sender("rooms/abc//write"), None);
    assert_eq!(topic_sender("rooms/abc/x/write"), None);
    assert_eq!(topic_sender("rooms/abc/007/write"), None);
    assert_eq!(topic_sender("rooms/abc/RT/write"), None);
}

#[test]
fn a_slash_in_the_name_of_a_room_shifts_the_fields() {
    assert_eq!(topic_sender("rooms/a/b/0/write"), None);
    assert_eq!(topic_sender("rooms/a/7/0/write"), Some(Sender::Player(7)));
}

#[test]
fn a_sender_is_rt_or_a_number() {
    assert_eq!(parse_sender("rt"), Some(Sender::Global));
    assert_eq!(parse_sender("0"), Some(Sender::Player(0)));
    assert_eq!(parse_sender(&usize::MAX.to_string()), Some(Sender::Player(usize::MAX)));
    for text in ["", "r", "rt ", "01", "+1", "-1", "1.0", "one"] {
        assert_eq!(parse_sender(text), None, "{:?}", text);
    }
}

#[test]
fn the_topic_of_a_sender_names_that_sender() {
    for who in [Sender::Global, Sender::Player(0), Sender::Player(3), Sender::Player(usize::MAX)] {
        for direction in [Direction::Write, Direction::Read] {
            let t = topic("rooms", "Zm9vYmFy", who, direction);
            assert_eq!(topic_sender(&t), Some(who));
        }
    }
}

#[test]
fn fields_of_a_topic() {
    assert_eq!(topic_field("rooms/abc/rt/write", 0), Some("rooms".to_string()));
    assert_eq!(topic_field("rooms/abc/rt/write", 3), Some("write".to_string()));
    assert_eq!(topic_field("rooms/abc/rt/write", 4), None);
    assert_eq!(player_from_topic(&"rooms/abc/rt/write".to_string()), "rt");
    assert_eq!(player_from_topic(&"rooms/abc/12/write".to_string()), "12");
    assert_eq!(player_from_topic(&"a/b/".to_string()), "");
}
