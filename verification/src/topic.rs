//! The names under which a room talks to the broker: its topics, the
//! identity of its client and its last will.
//!
//! A topic reads `{prefix}/{room}/{who}/{direction}`. `who` is `rt` for the
//! room as a whole or the number of a player; the runtime listens on
//! `write` topics and speaks on `read` topics.
use crate::room::model::{PlayerId, Sender};
use crate::text::{
    chars_of, decimal, decimal_string, field_bounds, is_digit, lemma_decimal_injective,
    lemma_decimal_is_numeral, lemma_first_sep_at, nth_field, parse_decimal, spells,
};
use vstd::prelude::*;
use vstd::string::*;

verus! {

broadcast use vstd::string::group_string_axioms;

/// The prefix under which the topics of all rooms live.
pub const ROOM_CHANNEL_PREFIX: &'static str = "rooms";

/// Which way a topic carries messages, seen from the clients.
#[derive(Debug, Clone, Copy, PartialEq, Eq, Structural)]
pub enum Direction {
    /// From the clients to the runtime.
    Write,
    /// From the runtime to the clients.
    Read,
}

/// The field of a topic that names `who`.
pub open spec fn who_text(who: Sender) -> Seq<char> {
    match who {
        Sender::Global => "rt"@,
        Sender::Player(p) => decimal(p as nat),
    }
}

/// The field of a topic that names its direction.
pub open spec fn direction_text(direction: Direction) -> Seq<char> {
    match direction {
        Direction::Write => "write"@,
        Direction::Read => "read"@,
    }
}

/// The topic of `who` in the room `room`, in the given direction.
pub open spec fn topic_text(
    prefix: Seq<char>,
    room: Seq<char>,
    who: Sender,
    direction: Direction,
) -> Seq<char> {
    prefix + "/"@ + room + "/"@ + who_text(who) + "/"@ + direction_text(direction)
}

/// Whom the field `field` of a topic names: `rt` is the room as a whole, a
/// canonical decimal numeral that fits a `usize` is that player, and
/// anything else is nobody.
pub open spec fn sender_of(field: Seq<char>) -> Option<Sender> {
    if field == "rt"@ {
        Some(Sender::Global)
    } else if exists|p: PlayerId| decimal(p as nat) == field {
        Some(Sender::Player(choose|p: PlayerId| decimal(p as nat) == field))
    } else {
        None
    }
}

/// Whom a message that came on `topic` is from: the one that its third
/// field names.
pub open spec fn sender_of_topic(topic: Seq<char>) -> Option<Sender> {
    match nth_field(topic, '/', 2) {
        Some(field) => sender_of(field),
        None => None,
    }
}

/// The topic on which the broker announces that the runtime of `room` is
/// gone.
pub open spec fn lwt_topic_text(room: Seq<char>) -> Seq<char> {
    "test/room/"@ + room
}

/// What the broker announces when the runtime of `room` is gone.
pub open spec fn lwt_payload_text(room: Seq<char>) -> Seq<char> {
    "Room rt "@ + room + " lost connection"@
}

/// The name under which the runtime of `room` connects to the broker.
pub open spec fn client_id_text(room: Seq<char>) -> Seq<char> {
    "room-rt-"@ + room
}

/// Whether `s` holds no `/`.
pub open spec fn slash_free(s: Seq<char>) -> bool {
    forall|i: int| 0 <= i < s.len() ==> #[trigger] s[i] != '/'
}

/// The field that names `who` holds no `/`, and names `who` alone.
pub proof fn lemma_who_text(who: Sender)
    ensures
        slash_free(who_text(who)),
        sender_of(who_text(who)) == Some(who),
{
    reveal_strlit("rt");
    match who {
        Sender::Global => {},
        Sender::Player(p) => {
            lemma_decimal_is_numeral(p as nat);
            let d = decimal(p as nat);
            assert(is_digit(d[0]));
            assert(d != "rt"@);
            let q = choose|q: PlayerId| decimal(q as nat) == d;
            lemma_decimal_injective(q as nat, p as nat);
            assert forall|i: int| 0 <= i < d.len() implies #[trigger] d[i] != '/' by {
                assert(is_digit(d[i]));
            }
        },
    }
}

/// The first field of `head + "/" + rest` is `head`, and the others are
/// those of `rest`, when `head` holds no `/`.
proof fn lemma_field_after(head: Seq<char>, rest: Seq<char>, n: nat)
    requires
        slash_free(head),
    ensures
        nth_field(head + "/"@ + rest, '/', 0) == Some(head),
        nth_field(head + "/"@ + rest, '/', n + 1) == nth_field(rest, '/', n),
{
    reveal_strlit("/");
    let s = head + "/"@ + rest;
    assert(s[head.len() as int] == '/');
    assert forall|i: int| 0 <= i < head.len() implies #[trigger] s[i] != '/' by {
        assert(s[i] == head[i]);
    }
    lemma_first_sep_at(s, '/', head.len() as int);
    assert(s.take(head.len() as int) =~= head);
    assert(s.skip(head.len() as int + 1) =~= rest);
}

/// A message on the topic of `who` is taken to be from `who`, as long as
/// neither the prefix nor the room's name holds a `/`.
pub proof fn lemma_topic_names_sender(
    prefix: Seq<char>,
    room: Seq<char>,
    who: Sender,
    direction: Direction,
)
    requires
        slash_free(prefix),
        slash_free(room),
    ensures
        sender_of_topic(topic_text(prefix, room, who, direction)) == Some(who),
{
    lemma_who_text(who);
    let w = who_text(who);
    let d = direction_text(direction);
    let t = topic_text(prefix, room, who, direction);
    let rest1 = room + "/"@ + w + "/"@ + d;
    let rest2 = w + "/"@ + d;
    assert(t =~= prefix + "/"@ + rest1);
    assert(rest1 =~= room + "/"@ + rest2);
    lemma_field_after(prefix, rest1, 1);
    lemma_field_after(room, rest2, 0);
    lemma_field_after(w, d, 0);
}

/// The field of a topic that names `who`.
fn who_string(who: Sender) -> (s: String)
    ensures
        s@ == who_text(who),
{
    match who {
        Sender::Global => String::from_str("rt"),
        Sender::Player(p) => decimal_string(p),
    }
}

/// The topic of `who` in the room named `room_id`, in the given direction.
pub fn topic(prefix: &str, room_id: &str, who: Sender, direction: Direction) -> (t: String)
    ensures
        t@ == topic_text(prefix@, room_id@, who, direction),
{
    let mut t = String::from_str(prefix);
    t.append("/");
    t.append(room_id);
    t.append("/");
    let w = who_string(who);
    t.append(w.as_str());
    t.append("/");
    match direction {
        Direction::Write => t.append("write"),
        Direction::Read => t.append("read"),
    }
    t
}

/// What the runtime of a room with `players_limit` seats listens on: the
/// room's shared `write` topic, then that of each seat in turn.
pub fn default_subscriptions(prefix: &str, room_id: &str, players_limit: usize) -> (topics: Vec<
    String,
>)
    ensures
        topics@.len() == players_limit + 1,
        topics@[0]@ == topic_text(prefix@, room_id@, Sender::Global, Direction::Write),
        forall|i: int|
            0 <= i < players_limit ==> (#[trigger] topics@[i + 1])@ == topic_text(
                prefix@,
                room_id@,
                Sender::Player(i as usize),
                Direction::Write,
            ),
{
    let mut topics: Vec<String> = Vec::new();
    topics.push(topic(prefix, room_id, Sender::Global, Direction::Write));
    let mut i: usize = 0;
    while i < players_limit
        invariant
            i <= players_limit,
            topics@.len() == i + 1,
            topics@[0]@ == topic_text(prefix@, room_id@, Sender::Global, Direction::Write),
            forall|k: int|
                0 <= k < i ==> (#[trigger] topics@[k + 1])@ == topic_text(
                    prefix@,
                    room_id@,
                    Sender::Player(k as usize),
                    Direction::Write,
                ),
        decreases players_limit - i,
    {
        topics.push(topic(prefix, room_id, Sender::Player(i), Direction::Write));
        i = i + 1;
    }
    topics
}

/// The topic on which the broker announces that the runtime of `room_id`
/// is gone.
pub fn lwt_topic(room_id: &str) -> (t: String)
    ensures
        t@ == lwt_topic_text(room_id@),
{
    let mut t = String::from_str("test/room/");
    t.append(room_id);
    t
}

/// What the broker announces when the runtime of `room_id` is gone.
pub fn lwt_payload(room_id: &str) -> (t: String)
    ensures
        t@ == lwt_payload_text(room_id@),
{
    let mut t = String::from_str("Room rt ");
    t.append(room_id);
    t.append(" lost connection");
    t
}

/// The name under which the runtime of `room_id` connects to the broker.
pub fn client_id(room_id: &str) -> (t: String)
    ensures
        t@ == client_id_text(room_id@),
{
    let mut t = String::from_str("room-rt-");
    t.append(room_id);
    t
}

/// Whom the characters `v[from..to]` name.
fn read_sender(v: &Vec<char>, from: usize, to: usize) -> (r: Option<Sender>)
    requires
        from <= to <= v.len(),
    ensures
        r == sender_of(v@.subrange(from as int, to as int)),
{
    if spells(v, from, to, "rt") {
        Some(Sender::Global)
    } else {
        match parse_decimal(v, from, to) {
            Some(p) => {
                proof {
                    let field = v@.subrange(from as int, to as int);
                    let q = choose|q: PlayerId| decimal(q as nat) == field;
                    lemma_decimal_injective(q as nat, p as nat);
                }
                Some(Sender::Player(p))
            },
            None => None,
        }
    }
}

/// Whom the field `field` of a topic names.
pub fn parse_sender(field: &str) -> (r: Option<Sender>)
    ensures
        r == sender_of(field@),
{
    let v = chars_of(field);
    assert(v@.subrange(0, v.len() as int) =~= v@);
    read_sender(&v, 0, v.len())
}

/// Whom a message that came on `topic` is from. `None` when the topic has
/// fewer than three fields or the third names nobody.
pub fn topic_sender(topic: &str) -> (r: Option<Sender>)
    ensures
        r == sender_of_topic(topic@),
{
    let v = chars_of(topic);
    match field_bounds(&v, '/', 2) {
        Some((a, b)) => read_sender(&v, a, b),
        None => None,
    }
}

/// Field number `n` (from 0) of `topic`, if it has that many.
pub fn topic_field(topic: &str, n: usize) -> (field: Option<String>)
    ensures
        match field {
            Some(f) => nth_field(topic@, '/', n as nat) == Some(f@),
            None => nth_field(topic@, '/', n as nat) is None,
        },
{
    let v = chars_of(topic);
    match field_bounds(&v, '/', n) {
        Some((a, b)) => Some(String::from_str(topic.substring_char(a, b))),
        None => None,
    }
}

/// The third field of `topic`, which names the sender.
pub fn player_from_topic(topic: &String) -> (player: String)
    requires
        nth_field(topic@, '/', 2) is Some,
    ensures
        Some(player@) == nth_field(topic@, '/', 2),
{
    match topic_field(topic.as_str(), 2) {
        Some(player) => player,
        None => String::new(),
    }
}

} // verus!
