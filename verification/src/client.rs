//! What a room asks of its broker client, as plain values, and how the
//! faults of the client are told apart.
//!
//! A client connects under a last will, subscribes and publishes at the
//! quality of service 2, and hands over what it receives.
use crate::message::{response_text, Response};
use crate::room::model::Sender;
use crate::topic::{
    client_id, client_id_text, default_subscriptions, lwt_payload, lwt_payload_text, lwt_topic,
    lwt_topic_text, topic, topic_text, Direction,
};
use vstd::prelude::*;
use vstd::string::*;

verus! {

/// How often a runtime tries to reconnect before it gives up.
pub const CONN_RETRIES: u32 = 12;

/// How long a runtime waits between two tries, in milliseconds.
pub const RETRY_WAIT_MS: u64 = 5000;

/// The keep-alive interval of a session, in seconds.
pub const KEEP_ALIVE_SECS: u64 = 20;

/// The quality of service of all room traffic.
pub const QOS: i32 = 2;

/// The version of MQTT that a room speaks.
pub const MQTT_VERSION_5: u32 = 5;

/// What a client is created with.
#[derive(Debug, PartialEq, Eq)]
pub struct CreateOptions {
    pub server_uri: String,
    pub client_id: String,
    pub mqtt_version: u32,
}

/// What the broker publishes when a client is gone without a goodbye.
#[derive(Debug, PartialEq, Eq)]
pub struct LastWill {
    pub topic: String,
    pub payload: String,
}

/// What a client connects with.
#[derive(Debug, PartialEq, Eq)]
pub struct ConnectOptions {
    pub keep_alive_secs: u64,
    pub clean_session: bool,
    pub will: LastWill,
}

/// Topics to subscribe to, each with its quality of service.
#[derive(Debug, PartialEq, Eq)]
pub struct Subscription {
    pub topics: Vec<String>,
    pub qos: Vec<i32>,
}

/// A message to publish.
#[derive(Debug, PartialEq, Eq)]
pub struct Publication {
    pub topic: String,
    pub payload: String,
    pub qos: i32,
}

/// What a room needs of a broker client. A room is written against this
/// set of capabilities alone, so that a client over a real broker and a
/// stand-in in memory serve it alike. Nothing is promised of what an
/// implementation answers.
pub trait Client {
    /// What `iter_msg` hands over: the messages as they come in.
    type Iter;

    /// How the client reports a fault.
    type ClientError;

    /// Opens a clean session under the last will of the room.
    fn connect(&mut self) -> Result<(), Self::ClientError>;

    /// Whether the session is up.
    fn is_connected(&self) -> bool;

    /// The messages that come in on the topics subscribed to.
    fn iter_msg(&mut self) -> Self::Iter;

    /// Publishes `msg` on the topic `channel`, at the quality of service
    /// 2.
    fn publish(&mut self, channel: String, msg: String) -> Result<(), Self::ClientError>;

    /// Subscribes to all of `channels`, at the quality of service 2.
    fn subscribe(&mut self, channels: Vec<String>) -> Result<(), Self::ClientError>;

    /// Closes the session.
    fn disconnect(&mut self) -> Result<(), Self::ClientError>;
}

/// What decides about the faults of a client.
pub trait ErrorHandler: Default {
    type Client: Client;

    /// What to do about the fault `err` of the client `c`.
    fn handle_err(c: &mut Self::Client, err: <Self::Client as Client>::ClientError) -> ErrorHandling;
}

/// The faults of a broker client, as a runtime sees them. Whatever else
/// goes wrong inside a client counts as a `ConnectionError`.
#[derive(Debug, PartialEq, Eq)]
pub enum MqttError {
    /// The client failed; the text is what it said.
    ConnectionError(String),
    /// What came in is no message; the text is what came in.
    MsgDecodingError(String),
    /// The broker reset the connection.
    ConnectionReset,
}

impl MqttError {
    /// What the fault reads.
    pub open spec fn message_text(&self) -> Seq<char> {
        match self {
            MqttError::ConnectionError(text) => "connection error "@ + text@,
            MqttError::MsgDecodingError(text) => "couldn't decode incoming msg "@ + text@,
            MqttError::ConnectionReset => "connection was reset"@,
        }
    }

    /// What the fault reads.
    pub fn message(&self) -> (s: String)
        ensures
            s@ == self.message_text(),
    {
        match self {
            MqttError::ConnectionError(text) => {
                let mut s = String::from_str("connection error ");
                s.append(text.as_str());
                s
            },
            MqttError::MsgDecodingError(text) => {
                let mut s = String::from_str("couldn't decode incoming msg ");
                s.append(text.as_str());
                s
            },
            MqttError::ConnectionReset => String::from_str("connection was reset"),
        }
    }
}

/// What to do about a fault.
#[derive(Debug, Clone, Copy, PartialEq, Eq, Structural)]
pub enum ErrorHandling {
    /// Pass over it and go on.
    Skip,
    /// End the runtime.
    Abort,
}

/// Decides what to do about the faults of a broker client.
#[derive(Debug, Default, Clone, Copy, PartialEq, Eq, Structural)]
pub struct MqttErrorHandler;

/// What is done about the fault `err`. `back` says, for a reset
/// connection, whether the client is connected still or again.
pub open spec fn handling_of(err: MqttError, back: bool) -> ErrorHandling {
    match err {
        MqttError::MsgDecodingError(_) => ErrorHandling::Skip,
        MqttError::ConnectionError(_) => ErrorHandling::Abort,
        MqttError::ConnectionReset => if back {
            ErrorHandling::Skip
        } else {
            ErrorHandling::Abort
        },
    }
}

impl MqttErrorHandler {
    /// What to do about the fault `err`: a message that cannot be decoded
    /// is passed over, a failure of the client ends the runtime, and a
    /// reset connection ends it unless the client is connected still or
    /// again, which `back` says.
    pub fn handle_err(err: &MqttError, back: bool) -> (r: ErrorHandling)
        ensures
            r == handling_of(*err, back),
    {
        match err {
            MqttError::MsgDecodingError(_) => ErrorHandling::Skip,
            MqttError::ConnectionError(_) => ErrorHandling::Abort,
            MqttError::ConnectionReset => if back {
                ErrorHandling::Skip
            } else {
                ErrorHandling::Abort
            },
        }
    }
}

impl Subscription {
    /// Whether this is the subscription of the runtime of `room` with
    /// `players_limit` seats: the room's shared `write` topic, then that of
    /// each seat in turn, all at the quality of service 2.
    pub open spec fn is_default(
        &self,
        prefix: Seq<char>,
        room: Seq<char>,
        players_limit: usize,
    ) -> bool {
        &&& self.topics@.len() == players_limit + 1
        &&& self.qos@.len() == self.topics@.len()
        &&& forall|i: int| 0 <= i < self.qos@.len() ==> #[trigger] self.qos@[i] == QOS
        &&& self.topics@[0]@ == topic_text(prefix, room, Sender::Global, Direction::Write)
        &&& forall|i: int|
            0 <= i < players_limit ==> (#[trigger] self.topics@[i + 1])@ == topic_text(
                prefix,
                room,
                Sender::Player(i as usize),
                Direction::Write,
            )
    }
}

impl Publication {
    /// Whether this publishes `resp` to `who` in `room`, at the quality of
    /// service 2.
    pub open spec fn carries(
        &self,
        prefix: Seq<char>,
        room: Seq<char>,
        who: Sender,
        resp: Response,
    ) -> bool {
        &&& self.topic@ == topic_text(prefix, room, who, Direction::Read)
        &&& self.payload@ == response_text(resp)
        &&& self.qos == QOS
    }
}

impl ConnectOptions {
    /// Whether these are the options under which the runtime of `room`
    /// connects: a clean session kept alive every 20 seconds, under the
    /// last will of the room.
    pub open spec fn is_for(&self, room: Seq<char>) -> bool {
        &&& self.keep_alive_secs == KEEP_ALIVE_SECS
        &&& self.clean_session
        &&& self.will.topic@ == lwt_topic_text(room)
        &&& self.will.payload@ == lwt_payload_text(room)
    }
}

impl CreateOptions {
    /// Whether these are the options with which the client of the runtime
    /// of `room` is created, for the broker at `host`.
    pub open spec fn is_for(&self, room: Seq<char>, host: Seq<char>) -> bool {
        &&& self.server_uri@ == host
        &&& self.client_id@ == client_id_text(room)
        &&& self.mqtt_version == MQTT_VERSION_5
    }
}

/// The options with which the client of the runtime of `room_id` is
/// created, for the broker at `host`.
pub fn get_creation_mqtt_options(room_id: &str, host: &str) -> (options: CreateOptions)
    ensures
        options.is_for(room_id@, host@),
{
    CreateOptions {
        server_uri: String::from_str(host),
        client_id: client_id(room_id),
        mqtt_version: MQTT_VERSION_5,
    }
}

/// The last will of the runtime of `room_id`.
pub fn get_lwt_mess(room_id: &str) -> (will: LastWill)
    ensures
        will.topic@ == lwt_topic_text(room_id@),
        will.payload@ == lwt_payload_text(room_id@),
{
    LastWill { topic: lwt_topic(room_id), payload: lwt_payload(room_id) }
}

/// The options of a clean session, kept alive every 20 seconds, under the
/// last will `lwt`.
pub fn get_connection_options(lwt: LastWill) -> (options: ConnectOptions)
    ensures
        options == (ConnectOptions {
            keep_alive_secs: KEEP_ALIVE_SECS,
            clean_session: true,
            will: lwt,
        }),
{
    ConnectOptions { keep_alive_secs: KEEP_ALIVE_SECS, clean_session: true, will: lwt }
}

/// What the runtime of `room_id` with `players_limit` seats subscribes to.
pub fn subscribe_default(prefix: &str, room_id: &str, players_limit: usize) -> (subscription:
    Subscription)
    ensures
        subscription.is_default(prefix@, room_id@, players_limit),
{
    let topics = default_subscriptions(prefix, room_id, players_limit);
    let mut qos: Vec<i32> = Vec::new();
    let mut i: usize = 0;
    while i < topics.len()
        invariant
            i <= topics.len(),
            qos@.len() == i,
            forall|k: int| 0 <= k < i ==> #[trigger] qos@[k] == QOS,
        decreases topics.len() - i,
    {
        qos.push(QOS);
        i = i + 1;
    }
    Subscription { topics, qos }
}

/// The publication of `resp` to `to` in the room `rd_id`.
pub fn send_resp(prefix: &str, to: Sender, resp: &Response, rd_id: &str) -> (publication:
    Publication)
    ensures
        publication.carries(prefix@, rd_id@, to, *resp),
{
    Publication { topic: topic(prefix, rd_id, to, Direction::Read), payload: resp.to_json(), qos: QOS }
}

/// The publication that tells the room `room_id` that its runtime is up.
pub fn send_rt_start_msg(prefix: &str, room_id: &str) -> (publication: Publication)
    ensures
        publication.carries(prefix@, room_id@, Sender::Global, Response::RuntimeStarted),
{
    send_resp(prefix, Sender::Global, &Response::RuntimeStarted, room_id)
}

} // verus!
