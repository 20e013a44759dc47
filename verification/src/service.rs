//! What goes on around a room: how it is created, how its runtime treats
//! what the broker delivers, and what it publishes in return.
use crate::client::{send_resp, Publication, CONN_RETRIES, RETRY_WAIT_MS};
use crate::config::Config;
use crate::deps::{base64_encode, base64_text};
use crate::message::{decoded_request, Request, Response};
use crate::repository::{EntryId, RoomEntry};
use crate::room::model::{Room, RoomView, Sender};
use crate::room::runtime::Runtime;
use crate::topic::{sender_of_topic, topic_field, ROOM_CHANNEL_PREFIX};
use vstd::prelude::*;
use vstd::string::*;

pub mod creation;
pub mod dto;

verus! {

/// The name of a topic.
pub type Topic = String;

/// What the runtime is to do after a request.
#[derive(Debug, PartialEq, Eq)]
pub enum Command {
    /// Nothing.
    Skip,
    /// Leave the broker and end, with a word on why if there is one.
    Abort(Option<String>),
    /// Publish the response.
    Response(Response),
}

/// Why a room could not be created.
#[derive(Debug, PartialEq, Eq)]
pub enum RoomCreationError {
    /// Something else went wrong; the text says what.
    UnknownError(String),
    /// The broker client failed; the text is what it said.
    MqttConnectionError(String),
    /// A message could not be encoded; the text says why.
    MsgEncodingError(String),
    /// The broker reset the connection.
    ConnectionReset,
}

/// Why the runtime got no request out of what the broker delivered.
#[derive(Debug, PartialEq, Eq)]
pub enum RuntimeError {
    /// The broker reset the connection.
    ConnectionReset,
    /// What came in is no request; the text is what came in.
    MsgDecodingError(String),
}

impl RoomCreationError {
    /// What the error reads.
    pub open spec fn message_text(&self) -> Seq<char> {
        match self {
            RoomCreationError::UnknownError(text) => "error: "@ + text@,
            RoomCreationError::MqttConnectionError(text) => text@,
            RoomCreationError::MsgEncodingError(text) => "could not encode the message "@ + text@,
            RoomCreationError::ConnectionReset => "connection was reset"@,
        }
    }

    /// What the error reads.
    pub fn message(&self) -> (s: String)
        ensures
            s@ == self.message_text(),
    {
        match self {
            RoomCreationError::UnknownError(text) => {
                let mut s = String::from_str("error: ");
                s.append(text.as_str());
                s
            },
            RoomCreationError::MqttConnectionError(text) => text.clone(),
            RoomCreationError::MsgEncodingError(text) => {
                let mut s = String::from_str("could not encode the message ");
                s.append(text.as_str());
                s
            },
            RoomCreationError::ConnectionReset => String::from_str("connection was reset"),
        }
    }
}

impl RuntimeError {
    /// What the error reads.
    pub open spec fn message_text(&self) -> Seq<char> {
        match self {
            RuntimeError::ConnectionReset => "connection was reset"@,
            RuntimeError::MsgDecodingError(text) => "could not decode message "@ + text@,
        }
    }

    /// What the error reads.
    pub fn message(&self) -> (s: String)
        ensures
            s@ == self.message_text(),
    {
        match self {
            RuntimeError::ConnectionReset => String::from_str("connection was reset"),
            RuntimeError::MsgDecodingError(text) => {
                let mut s = String::from_str("could not decode message ");
                s.append(text.as_str());
                s
            },
        }
    }
}

/// A message as the broker delivers it.
#[derive(Debug, PartialEq, Eq)]
pub struct Delivery {
    pub topic: Topic,
    pub payload: String,
}

/// A room about to get its runtime: its record in the store, its limits
/// and its name.
#[derive(Debug)]
pub struct RoomData {
    pub entry: RoomEntry,
    pub players_limit: usize,
    pub rounds_limit: usize,
    pub id_as_base64: String,
}

/// The identifier of a room together with its name, which is the
/// identifier in base64.
#[derive(Debug)]
pub struct InternalRoomId {
    pub id: EntryId,
    pub as_base64: String,
}

/// What a text reads when set in `Room(` and `)`.
pub open spec fn room_label(name: Seq<char>) -> Seq<char> {
    "Room("@ + name + ")"@
}

fn label_of(name: &str) -> (label: String)
    ensures
        label@ == room_label(name@),
{
    let mut label = String::from_str("Room(");
    label.append(name);
    label.append(")");
    label
}

impl InternalRoomId {
    pub fn new(id: EntryId, as_base64: String) -> (r: Self)
        ensures
            r.id == id,
            r.name() == as_base64@,
    {
        Self { id, as_base64 }
    }

    /// The name of the room, as specifications see it.
    pub open spec fn name(&self) -> Seq<char> {
        self.as_base64@
    }

    /// The name of the room.
    pub fn as_base64(&self) -> (name: &String)
        ensures
            name@ == self.name(),
    {
        &self.as_base64
    }

    /// How the room is called in a log: `Room(` its name `)`.
    pub fn label(&self) -> (label: String)
        ensures
            label@ == room_label(self.name()),
    {
        label_of(self.as_base64.as_str())
    }
}

impl RoomData {
    /// The room that the store keeps as `entry`, with `rounds_limit`
    /// rounds to play, under the name that is its identifier in base64.
    pub fn new(entry: RoomEntry, players_limit: usize, rounds_limit: usize) -> (rd: Self)
        ensures
            rd.entry == entry,
            rd.players_limit == players_limit,
            rd.rounds_limit == rounds_limit,
            rd.name() == base64_text(entry.id@),
    {
        let id_as_base64 = base64_encode(&entry.id);
        Self { entry, players_limit, rounds_limit, id_as_base64 }
    }

    /// The room that the store keeps as `entry`, under the name
    /// `id_as_base64`.
    pub fn named(
        entry: RoomEntry,
        players_limit: usize,
        rounds_limit: usize,
        id_as_base64: String,
    ) -> (rd: Self)
        ensures
            rd.entry == entry,
            rd.players_limit == players_limit,
            rd.rounds_limit == rounds_limit,
            rd.name() == id_as_base64@,
    {
        Self { entry, players_limit, rounds_limit, id_as_base64 }
    }

    /// The name of the room, as specifications see it.
    pub open spec fn name(&self) -> Seq<char> {
        self.id_as_base64@
    }

    /// The name of the room.
    pub fn id_as_base64(&self) -> (name: &String)
        ensures
            name@ == self.name(),
    {
        &self.id_as_base64
    }

    /// The identifier of the room together with its name.
    pub fn internal_id(&self) -> (r: InternalRoomId)
        ensures
            r.id == self.entry.id,
            r.name() == self.name(),
    {
        InternalRoomId::new(self.entry.id, self.id_as_base64.clone())
    }

    /// How the room is called in a log: `Room(` its name `)`.
    pub fn label(&self) -> (label: String)
        ensures
            label@ == room_label(self.name()),
    {
        label_of(self.id_as_base64.as_str())
    }

    /// The game of the room, before anyone has joined.
    pub fn into(self) -> (room: Room)
        ensures
            room@ == RoomView::initial(
                self.entry.id@,
                self.entry.password,
                self.players_limit,
                self.rounds_limit,
            ),
            room@.wf(),
    {
        Room::new(self.entry.id, self.entry.password, self.players_limit, self.rounds_limit)
    }
}

/// What the runtime gets out of what the broker delivered: the topic and
/// the request of a message, a failure to decode, or the news that the
/// connection was reset when nothing was delivered.
pub fn parse_msg(msg: Option<Delivery>) -> (r: Result<(Topic, Request), RuntimeError>)
    ensures
        match msg {
            None => r == Err::<(Topic, Request), RuntimeError>(RuntimeError::ConnectionReset),
            Some(delivery) => match decoded_request(delivery.payload@) {
                Some(request) => r == Ok::<(Topic, Request), RuntimeError>(
                    (delivery.topic, request),
                ),
                None => r == Err::<(Topic, Request), RuntimeError>(
                    RuntimeError::MsgDecodingError(delivery.payload),
                ),
            },
        },
{
    match msg {
        Some(val) => match Request::from_json(val.payload.as_str()) {
            Some(request) => Ok((val.topic, request)),
            None => Err(RuntimeError::MsgDecodingError(val.payload)),
        },
        None => Err(RuntimeError::ConnectionReset),
    }
}


/// The state of the connection of a runtime to the broker.
#[derive(Debug, Clone, Copy, PartialEq, Eq, Structural)]
pub enum Link {
    /// Up, as far as is known.
    Listening,
    /// Reset. `attempts` tries to reconnect have been started; `waiting`
    /// says that the last one failed and the pause before the next is on.
    Reconnecting { attempts: u32, waiting: bool },
    /// Given up, or left.
    Stopped,
}

/// What happens to the connection, as far as its state goes.
#[derive(Debug, Clone, Copy, PartialEq, Eq, Structural)]
pub enum LinkEvent {
    /// A message came in.
    Delivered,
    /// The stream of messages yielded nothing; `connected` is what the
    /// client says of itself.
    Reset { connected: bool },
    /// A try to reconnect ended; `true` if well.
    Reconnected(bool),
    /// A pause is over.
    Waited,
}

/// What the one who drives the runtime is to do next, data aside.
#[derive(Debug, Clone, Copy, PartialEq, Eq, Structural)]
pub enum LinkAction {
    /// Await the next message (after publishing, if there is something to
    /// publish).
    Listen,
    /// Try to reconnect, and report how it ended.
    Reconnect,
    /// Pause for so many milliseconds, and report when over.
    Wait(u64),
    /// Disconnect if connected, and end.
    Stop,
}

impl Link {
    /// The invariant of the state: between one and twelve tries.
    pub open spec fn wf(self) -> bool {
        self matches Link::Reconnecting { attempts, .. } ==> 1 <= attempts <= CONN_RETRIES
    }

    /// The state after `event`, and what to do.
    ///
    /// A reset that leaves the client connected is passed over. Else the
    /// first try to reconnect starts at once; a try that fails is followed
    /// by a pause and the next try, and the twelfth that fails ends the
    /// runtime.
    pub open spec fn step(self, event: LinkEvent) -> (Link, LinkAction) {
        match (self, event) {
            (Link::Stopped, _) => (Link::Stopped, LinkAction::Stop),
            (_, LinkEvent::Delivered) => (Link::Listening, LinkAction::Listen),
            (_, LinkEvent::Reset { connected }) => if connected {
                (Link::Listening, LinkAction::Listen)
            } else {
                (Link::Reconnecting { attempts: 1, waiting: false }, LinkAction::Reconnect)
            },
            (Link::Reconnecting { attempts, waiting: false }, LinkEvent::Reconnected(ok)) => if ok {
                (Link::Listening, LinkAction::Listen)
            } else if attempts < CONN_RETRIES {
                (Link::Reconnecting { attempts, waiting: true }, LinkAction::Wait(RETRY_WAIT_MS))
            } else {
                (Link::Stopped, LinkAction::Stop)
            },
            (Link::Reconnecting { attempts, waiting: true }, LinkEvent::Waited) => if attempts
                < CONN_RETRIES {
                (
                    Link::Reconnecting { attempts: (attempts + 1) as u32, waiting: false },
                    LinkAction::Reconnect,
                )
            } else {
                (Link::Stopped, LinkAction::Stop)
            },
            _ => (self, LinkAction::Listen),
        }
    }

    /// How many tries to reconnect `events` set off, one after the other,
    /// from this state.
    pub open spec fn attempts_in(self, events: Seq<LinkEvent>) -> nat
        decreases events.len(),
    {
        if events.len() == 0 {
            0
        } else {
            let (next, action) = self.step(events[0]);
            (if action is Reconnect {
                1nat
            } else {
                0nat
            }) + next.attempts_in(events.drop_first())
        }
    }

    /// How many tries are left before the runtime gives up.
    pub open spec fn tries_left(self) -> nat {
        match self {
            Link::Reconnecting { attempts, .. } => (CONN_RETRIES - attempts) as nat,
            _ => 0,
        }
    }

    /// The state keeps its invariant.
    pub proof fn lemma_step_wf(self, event: LinkEvent)
        requires
            self.wf(),
        ensures
            self.step(event).0.wf(),
    {
    }

    /// A try to reconnect is either the first after a reset or comes after
    /// a pause of 5000 milliseconds that followed the try before; a pause
    /// is never of another length, and follows a try that failed.
    pub proof fn lemma_tries_are_spaced(self, event: LinkEvent)
        requires
            self.wf(),
        ensures
            self.step(event).1 is Reconnect ==> {
                ||| event == (LinkEvent::Reset { connected: false }) && self.step(event).0 == (
                Link::Reconnecting { attempts: 1, waiting: false })
                ||| exists|made: u32|
                    self == (Link::Reconnecting { attempts: made, waiting: true }) && event
                        == LinkEvent::Waited && self.step(event).0 == (Link::Reconnecting {
                        attempts: (made + 1) as u32,
                        waiting: false,
                    })
            },
            self.step(event).1 matches LinkAction::Wait(millis) ==> millis == RETRY_WAIT_MS
                && event == LinkEvent::Reconnected(false) && self.step(event).0
                matches Link::Reconnecting { waiting: true, .. },
    {
        if self.step(event).1 is Reconnect && event != (LinkEvent::Reset { connected: false }) {
            let made = self->Reconnecting_attempts;
            assert(self == (Link::Reconnecting { attempts: made, waiting: true }));
        }
    }

    /// As long as the connection is not reset anew, no more tries to
    /// reconnect are made than are left.
    pub proof fn lemma_tries_are_bounded(self, events: Seq<LinkEvent>)
        requires
            self.wf(),
            forall|i: int| 0 <= i < events.len() ==> !(#[trigger] events[i] is Reset),
        ensures
            self.attempts_in(events) <= self.tries_left(),
        decreases events.len(),
    {
        if events.len() > 0 {
            let (next, action) = self.step(events[0]);
            let rest = events.drop_first();
            assert(!(events[0] is Reset));
            assert forall|i: int| 0 <= i < rest.len() implies !(#[trigger] rest[i] is Reset) by {
                assert(rest[i] == events[i + 1]);
            }
            next.lemma_tries_are_bounded(rest);
        }
    }

    /// A reset sets off at most twelve tries to reconnect.
    pub proof fn lemma_at_most_twelve_tries(self, events: Seq<LinkEvent>)
        requires
            self.wf(),
            events.len() > 0,
            events[0] is Reset,
            forall|i: int| 1 <= i < events.len() ==> !(#[trigger] events[i] is Reset),
        ensures
            self.attempts_in(events) <= CONN_RETRIES,
    {
        let (next, action) = self.step(events[0]);
        let rest = events.drop_first();
        assert forall|i: int| 0 <= i < rest.len() implies !(#[trigger] rest[i] is Reset) by {
            assert(rest[i] == events[i + 1]);
        }
        self.lemma_step_wf(events[0]);
        next.lemma_tries_are_bounded(rest);
    }
}

/// What happens to a runtime.
#[derive(Debug, PartialEq, Eq)]
pub enum TaskEvent {
    /// The broker delivered a message.
    Delivered(Delivery),
    /// The stream of messages yielded nothing; `connected` is what the
    /// client says of itself.
    Reset { connected: bool },
    /// A try to reconnect ended; `true` if well.
    Reconnected(bool),
    /// A pause is over.
    Waited,
}

/// What the one who drives a runtime is to do next.
#[derive(Debug, PartialEq, Eq)]
pub enum TaskAction {
    /// Await the next message.
    Listen,
    /// Publish, pass over a failure to, and await the next message.
    Publish(Publication),
    /// Try to reconnect, and report how it ended.
    Reconnect,
    /// Pause for so many milliseconds, and report when over.
    Wait(u64),
    /// Disconnect if connected, and end; with a word on why if there is
    /// one.
    Stop(Option<String>),
}

impl TaskEvent {
    /// What the event means to the connection.
    pub open spec fn kind(&self) -> LinkEvent {
        match self {
            TaskEvent::Delivered(_) => LinkEvent::Delivered,
            TaskEvent::Reset { connected } => LinkEvent::Reset { connected: *connected },
            TaskEvent::Reconnected(ok) => LinkEvent::Reconnected(*ok),
            TaskEvent::Waited => LinkEvent::Waited,
        }
    }
}

impl TaskAction {
    /// The action, data aside.
    pub open spec fn kind(&self) -> LinkAction {
        match self {
            TaskAction::Listen => LinkAction::Listen,
            TaskAction::Publish(_) => LinkAction::Listen,
            TaskAction::Reconnect => LinkAction::Reconnect,
            TaskAction::Wait(millis) => LinkAction::Wait(*millis),
            TaskAction::Stop(_) => LinkAction::Stop,
        }
    }

    /// Whether the action carries out `command` for the room called
    /// `name`: nothing to publish for `Skip`, the response to the one
    /// player on their own `read` topic for `Priv`, any other response to
    /// the room on its shared `read` topic, and the end for `Abort`.
    pub open spec fn carries_out(&self, command: Command, name: Seq<char>) -> bool {
        match command {
            Command::Skip => *self == TaskAction::Listen,
            Command::Abort(reason) => *self == TaskAction::Stop(reason),
            Command::Response(Response::Priv(player, inner)) => *self matches TaskAction::Publish(
                publication,
            ) && publication.carries(ROOM_CHANNEL_PREFIX@, name, Sender::Player(player), *inner),
            Command::Response(other) => *self matches TaskAction::Publish(publication)
                && publication.carries(ROOM_CHANNEL_PREFIX@, name, Sender::Global, other),
        }
    }
}

/// What to do about `cmd` in the room `rd_id`.
pub fn handle_resp(rd_id: &InternalRoomId, cmd: Command) -> (action: TaskAction)
    ensures
        action.carries_out(cmd, rd_id.name()),
{
    match cmd {
        Command::Abort(msg) => TaskAction::Stop(msg),
        Command::Response(Response::Priv(player, resp)) => TaskAction::Publish(
            send_resp(
                ROOM_CHANNEL_PREFIX,
                Sender::Player(player),
                &*resp,
                rd_id.as_base64.as_str(),
            ),
        ),
        Command::Response(resp) => TaskAction::Publish(
            send_resp(ROOM_CHANNEL_PREFIX, Sender::Global, &resp, rd_id.as_base64.as_str()),
        ),
        Command::Skip => TaskAction::Listen,
    }
}


/// Whether a runtime that went from the room `before` to the room `after`
/// with `action` has treated `delivery` as it should: a payload that is no
/// request, or a topic that names no sender, is passed over; else the room
/// moves on by the request and `action` carries out its reply.
pub open spec fn treats(
    before: RoomView,
    after: RoomView,
    delivery: Delivery,
    action: TaskAction,
    name: Seq<char>,
) -> bool {
    match (decoded_request(delivery.payload@), sender_of_topic(delivery.topic@)) {
        (Some(request), Some(sender)) => {
            &&& exists|token: usize| after == #[trigger] before.next(sender, request, token)
            &&& action.carries_out(before.reply(sender, request), name)
        },
        _ => after == before && action == TaskAction::Listen,
    }
}

/// The life of the runtime of one room, from the moment it is spawned: it
/// owns the game, knows the name of the room and keeps track of the
/// connection. The game and the connection keep their invariants at all
/// times.
#[derive(Debug)]
pub struct RoomTask {
    runtime: Runtime,
    room_id: InternalRoomId,
    link: Link,
}

impl RoomTask {
    #[verifier::type_invariant]
    spec fn inv(self) -> bool {
        self.runtime.wf() && self.link.wf()
    }

    /// The room, as specifications see it.
    pub closed spec fn room(&self) -> RoomView {
        self.runtime.room()
    }

    /// The state of the connection, as specifications see it.
    pub closed spec fn link(&self) -> Link {
        self.link
    }

    /// The name of the room, as specifications see it.
    pub closed spec fn name(&self) -> Seq<char> {
        self.room_id.name()
    }

    /// The identifier of the room, as specifications see it.
    pub closed spec fn ident(&self) -> EntryId {
        self.room_id.id
    }

    /// The task of the room `rd`, under the settings `config`: nobody has
    /// joined yet, and the connection is up.
    pub fn new(rd: RoomData, config: Config) -> (task: Self)
        ensures
            task.link() == Link::Listening,
            task.name() == rd.name(),
            task.ident() == rd.entry.id,
            task.room() == RoomView::initial(
                rd.entry.id@,
                rd.entry.password,
                rd.players_limit,
                rd.rounds_limit,
            ),
    {
        let room_id = rd.internal_id();
        let runtime = Runtime::new(rd.into(), config);
        Self { runtime, room_id, link: Link::Listening }
    }

    /// The runtime of the room.
    pub fn runtime(&self) -> (runtime: &Runtime)
        ensures
            runtime.room() == self.room(),
            runtime.wf(),
            self.room().wf(),
    {
        proof {
            use_type_invariant(self);
            self.runtime.lemma_wf();
        }
        &self.runtime
    }

    /// The identifier and the name of the room.
    pub fn room_id(&self) -> (id: &InternalRoomId)
        ensures
            id.name() == self.name(),
            id.id == self.ident(),
    {
        &self.room_id
    }

    /// The state of the connection.
    pub fn link_state(&self) -> (link: Link)
        ensures
            link == self.link(),
            link.wf(),
    {
        proof {
            use_type_invariant(self);
        }
        self.link
    }

    /// Treats `event`; gives the task as it is afterwards, and says what
    /// to do next.
    ///
    /// A message moves the room on and may have something published; a
    /// reset connection is reconnected, with up to twelve tries 5000
    /// milliseconds apart; a task that has stopped stays stopped.
    pub fn handle(self, event: TaskEvent) -> (r: (Self, TaskAction))
        ensures
            r.0.name() == self.name(),
            r.0.ident() == self.ident(),
            r.0.link() == self.link().step(event.kind()).0,
            match event {
                TaskEvent::Delivered(delivery) => if self.link() is Stopped {
                    r.0.room() == self.room() && r.1 == TaskAction::Stop(None)
                } else {
                    treats(self.room(), r.0.room(), delivery, r.1, self.name())
                },
                _ => {
                    &&& r.0.room() == self.room()
                    &&& r.1.kind() == self.link().step(event.kind()).1
                    &&& !(r.1 is Publish)
                },
            },
    {
        proof {
            use_type_invariant(&self);
        }
        let RoomTask { runtime, room_id, link } = self;
        let mut runtime = runtime;
        match (link, event) {
            (Link::Stopped, _) => (RoomTask { runtime, room_id, link }, TaskAction::Stop(None)),
            (_, TaskEvent::Delivered(delivery)) => {
                let action = deliver(&mut runtime, &room_id, delivery);
                (RoomTask { runtime, room_id, link: Link::Listening }, action)
            },
            (_, TaskEvent::Reset { connected }) => {
                if connected {
                    (RoomTask { runtime, room_id, link: Link::Listening }, TaskAction::Listen)
                } else {
                    (
                        RoomTask {
                            runtime,
                            room_id,
                            link: Link::Reconnecting { attempts: 1, waiting: false },
                        },
                        TaskAction::Reconnect,
                    )
                }
            },
            (Link::Reconnecting { attempts, waiting: false }, TaskEvent::Reconnected(ok)) => {
                if ok {
                    (RoomTask { runtime, room_id, link: Link::Listening }, TaskAction::Listen)
                } else if attempts < CONN_RETRIES {
                    (
                        RoomTask {
                            runtime,
                            room_id,
                            link: Link::Reconnecting { attempts, waiting: true },
                        },
                        TaskAction::Wait(RETRY_WAIT_MS),
                    )
                } else {
                    (
                        RoomTask { runtime, room_id, link: Link::Stopped },
                        TaskAction::Stop(Some(String::from_str("channel died"))),
                    )
                }
            },
            (Link::Reconnecting { attempts, waiting: true }, TaskEvent::Waited) => {
                if attempts < CONN_RETRIES {
                    (
                        RoomTask {
                            runtime,
                            room_id,
                            link: Link::Reconnecting { attempts: attempts + 1, waiting: false },
                        },
                        TaskAction::Reconnect,
                    )
                } else {
                    (
                        RoomTask { runtime, room_id, link: Link::Stopped },
                        TaskAction::Stop(Some(String::from_str("channel died"))),
                    )
                }
            },
            _ => (RoomTask { runtime, room_id, link }, TaskAction::Listen),
        }
    }
}

/// Treats a message that the broker delivered to the runtime of the room
/// `room_id`.
fn deliver(runtime: &mut Runtime, room_id: &InternalRoomId, delivery: Delivery) -> (action:
    TaskAction)
    requires
        old(runtime).wf(),
    ensures
        final(runtime).wf(),
        treats(old(runtime).room(), final(runtime).room(), delivery, action, room_id.name()),
{
    match parse_msg(Some(delivery)) {
        Ok((topic, request)) => match topic_field(topic.as_str(), 2) {
            Some(player) => {
                let command = runtime.process_msg(player.as_str(), request);
                handle_resp(room_id, command)
            },
            None => TaskAction::Listen,
        },
        Err(_) => TaskAction::Listen,
    }
}

} // verus!
