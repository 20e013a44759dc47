//! How a room is created: a record in the store, a session with the
//! broker, and a runtime; and, when the broker fails after the record is
//! made, the removal of the record.
//!
//! The steps are taken by whoever drives the creation. What to do next is
//! decided here, from what has happened so far.
use crate::client::{
    get_connection_options, get_creation_mqtt_options, get_lwt_mess, send_rt_start_msg,
    subscribe_default, ConnectOptions, CreateOptions, Publication, Subscription,
};
use crate::config::Config;
use crate::deps::base64_text;
use crate::message::Response;
use crate::repository::{EntryId, RepError, RepReq, RepResp, RoomEntry};
use crate::room::model::{RoomView, Sender};
use crate::service::dto::{NewRoomReq, NewRoomResp};
use crate::service::{Link, RoomCreationError, RoomData, RoomTask};
use crate::topic::ROOM_CHANNEL_PREFIX;
use vstd::prelude::*;
use vstd::string::*;

verus! {

/// How far the creation of a room has come.
#[derive(Debug, Clone, Copy, PartialEq, Eq, Structural)]
pub enum Stage {
    /// The repository has been asked for a record.
    AwaitingEntry,
    /// The record is made; the broker client is being created.
    CreatingClient,
    /// The client is connecting.
    Connecting,
    /// The client is subscribing to the topics of the room.
    Subscribing,
    /// Subscribing failed; the client is disconnecting.
    Disconnecting,
    /// The client is announcing the runtime.
    Announcing,
    /// The broker failed; the repository has been asked to remove the
    /// record.
    RollingBack,
    /// Nothing is left to do.
    Finished,
}

/// What has happened since the last step.
#[derive(Debug, PartialEq, Eq)]
pub enum CreationEvent {
    /// The repository answered, or the way to it failed.
    Repository(Result<RepResp, RepError>),
    /// What was asked of the broker client is done, or failed with the
    /// words given.
    Broker(Result<(), String>),
}

/// What to do next.
#[derive(Debug)]
pub enum CreationAction {
    /// Ask the repository, and report its answer.
    Ask(RepReq),
    /// Create the broker client, and report.
    CreateClient(CreateOptions),
    /// Connect the client, and report.
    Connect(ConnectOptions),
    /// Subscribe the client, and report.
    Subscribe(Subscription),
    /// Disconnect the client, and report.
    Disconnect,
    /// Publish the announcement of the runtime, and report.
    Announce(Publication),
    /// Spawn the runtime on the client, and answer the caller.
    Launch(RoomTask, NewRoomResp),
    /// Tell the caller that the room could not be created.
    Fail(RoomCreationError),
    /// Nothing.
    Idle,
}

/// An event, as far as the course of the creation goes.
pub enum EventKind {
    /// The repository made the record.
    Created(RoomEntry),
    /// The repository answered something else, or nothing.
    Unanswered,
    /// The broker client did what it was asked.
    Done,
    /// The broker client failed.
    Failed,
}

/// An action, data aside.
pub enum ActionKind {
    AskCreate(usize),
    AskRemove(EntryId),
    CreateClient,
    Connect,
    Subscribe,
    Disconnect,
    Announce,
    Launch,
    Fail,
    Idle,
}

/// A creation, as specifications see it: how far it has come, and the
/// record of the room once it is made.
pub struct CreationView {
    pub stage: Stage,
    pub players_limit: usize,
    pub entry: Option<RoomEntry>,
}

impl CreationEvent {
    pub open spec fn kind(&self) -> EventKind {
        match self {
            CreationEvent::Repository(Ok(RepResp::RoomCreated(entry))) => EventKind::Created(*entry),
            CreationEvent::Repository(_) => EventKind::Unanswered,
            CreationEvent::Broker(Ok(_)) => EventKind::Done,
            CreationEvent::Broker(Err(_)) => EventKind::Failed,
        }
    }
}

impl CreationAction {
    pub open spec fn kind(&self) -> ActionKind {
        match self {
            CreationAction::Ask(RepReq::CreateRoom { players_limit }) => ActionKind::AskCreate(
                *players_limit,
            ),
            CreationAction::Ask(RepReq::RemoveRoom { room_id }) => ActionKind::AskRemove(*room_id),
            CreationAction::Ask(_) => ActionKind::Idle,
            CreationAction::CreateClient(_) => ActionKind::CreateClient,
            CreationAction::Connect(_) => ActionKind::Connect,
            CreationAction::Subscribe(_) => ActionKind::Subscribe,
            CreationAction::Disconnect => ActionKind::Disconnect,
            CreationAction::Announce(_) => ActionKind::Announce,
            CreationAction::Launch(_, _) => ActionKind::Launch,
            CreationAction::Fail(_) => ActionKind::Fail,
            CreationAction::Idle => ActionKind::Idle,
        }
    }
}

impl CreationView {
    /// A creation that has just asked the repository for a record of a
    /// room with `players_limit` seats.
    pub open spec fn start(players_limit: usize) -> CreationView {
        CreationView { stage: Stage::AwaitingEntry, players_limit, entry: None }
    }

    /// The invariant of a creation: from the moment the record is made
    /// until the creation is finished, the record is at hand.
    pub open spec fn wf(self) -> bool {
        self.stage != Stage::AwaitingEntry && self.stage != Stage::Finished ==> self.entry is Some
    }

    /// The creation after `event`, and what to do.
    ///
    /// As long as all goes well the steps follow one another: record,
    /// client, connection, subscription, announcement, launch; with the
    /// launch the record passes to the runtime. When the
    /// repository makes no record the creation fails at once, for there
    /// is nothing to take back. When anything fails after the record is
    /// made, the repository is asked to remove it (after the client has
    /// disconnected, if it was subscribing), and then the creation fails,
    /// whatever the repository answers.
    pub open spec fn next(self, event: EventKind) -> (CreationView, ActionKind) {
        let to = |stage: Stage| CreationView { stage, ..self };
        let back = (to(Stage::RollingBack), ActionKind::AskRemove(self.entry->0.id));
        match self.stage {
            Stage::AwaitingEntry => match event {
                EventKind::Created(entry) => (
                    CreationView { stage: Stage::CreatingClient, entry: Some(entry), ..self },
                    ActionKind::CreateClient,
                ),
                _ => (to(Stage::Finished), ActionKind::Fail),
            },
            Stage::CreatingClient => match event {
                EventKind::Done => (to(Stage::Connecting), ActionKind::Connect),
                _ => back,
            },
            Stage::Connecting => match event {
                EventKind::Done => (to(Stage::Subscribing), ActionKind::Subscribe),
                _ => back,
            },
            Stage::Subscribing => match event {
                EventKind::Done => (to(Stage::Announcing), ActionKind::Announce),
                _ => (to(Stage::Disconnecting), ActionKind::Disconnect),
            },
            Stage::Disconnecting => back,
            Stage::Announcing => match event {
                EventKind::Done => (
                    CreationView { stage: Stage::Finished, entry: None, ..self },
                    ActionKind::Launch,
                ),
                _ => back,
            },
            Stage::RollingBack => (to(Stage::Finished), ActionKind::Fail),
            Stage::Finished => (self, ActionKind::Idle),
        }
    }

    /// What is done, step by step, as `events` happen one after the other.
    pub open spec fn actions(self, events: Seq<EventKind>) -> Seq<ActionKind>
        decreases events.len(),
    {
        if events.len() == 0 {
            Seq::empty()
        } else {
            let (after, action) = self.next(events[0]);
            seq![action] + after.actions(events.drop_first())
        }
    }

    /// The creation keeps its invariant.
    pub proof fn lemma_next_wf(self, event: EventKind)
        requires
            self.wf(),
        ensures
            self.next(event).0.wf(),
            self.next(event).0.players_limit == self.players_limit,
    {
    }

    /// The record that the repository is asked to remove is the one that
    /// it made for this room.
    pub proof fn lemma_removal_names_the_room(self, event: EventKind)
        requires
            self.wf(),
            self.next(event).1 is AskRemove,
        ensures
            self.entry is Some,
            self.next(event).1 == ActionKind::AskRemove(self.entry->0.id),
            self.next(event).0.stage == Stage::RollingBack,
    {
    }

    /// Whatever fails after the record is made, the repository is asked to
    /// remove the record: at once, or after the client has disconnected.
    pub proof fn lemma_failure_is_compensated(self, event: EventKind, then: EventKind)
        requires
            self.wf(),
            self.stage == Stage::CreatingClient || self.stage == Stage::Connecting || self.stage
                == Stage::Subscribing || self.stage == Stage::Announcing,
            !(event is Done),
        ensures
            ({
                let (after, action) = self.next(event);
                let removal = ActionKind::AskRemove(self.entry->0.id);
                ||| action == removal
                ||| action == ActionKind::Disconnect && after.next(then).1 == removal
            }),
    {
    }
}

/// How often `actions` ask the repository to remove a record.
pub open spec fn removals(actions: Seq<ActionKind>) -> nat
    decreases actions.len(),
{
    if actions.len() == 0 {
        0
    } else {
        (if actions[0] is AskRemove {
            1nat
        } else {
            0nat
        }) + removals(actions.drop_first())
    }
}

/// How often `actions` spawn a runtime.
pub open spec fn launches(actions: Seq<ActionKind>) -> nat
    decreases actions.len(),
{
    if actions.len() == 0 {
        0
    } else {
        (if actions[0] is Launch {
            1nat
        } else {
            0nat
        }) + launches(actions.drop_first())
    }
}

impl CreationView {
    /// Once the removal is asked for, or the creation finished, nothing is
    /// removed and nothing spawned any more.
    pub proof fn lemma_nothing_after_the_end(self, events: Seq<EventKind>)
        requires
            self.stage == Stage::RollingBack || self.stage == Stage::Finished,
        ensures
            removals(self.actions(events)) == 0,
            launches(self.actions(events)) == 0,
        decreases events.len(),
    {
        if events.len() > 0 {
            let (after, action) = self.next(events[0]);
            let rest = after.actions(events.drop_first());
            after.lemma_nothing_after_the_end(events.drop_first());
            assert((seq![action] + rest).drop_first() =~= rest);
        }
    }

    /// In the whole course of a creation a record is removed at most once,
    /// and never when a runtime is spawned: a runtime is spawned at most
    /// once, and then nothing is removed.
    pub proof fn lemma_removed_or_launched_once(self, events: Seq<EventKind>)
        requires
            self.wf(),
        ensures
            removals(self.actions(events)) + launches(self.actions(events)) <= 1,
        decreases events.len(),
    {
        if events.len() > 0 {
            let (after, action) = self.next(events[0]);
            let rest = after.actions(events.drop_first());
            assert((seq![action] + rest).drop_first() =~= rest);
            self.lemma_next_wf(events[0]);
            if action is AskRemove || action is Launch {
                after.lemma_nothing_after_the_end(events.drop_first());
            } else {
                after.lemma_removed_or_launched_once(events.drop_first());
            }
        }
    }

    /// When the client fails to connect after the record `entry` is made,
    /// the repository is asked once, at that moment, to remove `entry`,
    /// and no runtime is spawned, whatever happens afterwards.
    pub proof fn lemma_failed_connect_is_rolled_back(
        players_limit: usize,
        entry: RoomEntry,
        rest: Seq<EventKind>,
    )
        ensures
            ({
                let events = seq![EventKind::Created(entry), EventKind::Done, EventKind::Failed]
                    + rest;
                let actions = CreationView::start(players_limit).actions(events);
                &&& actions.len() == events.len()
                &&& actions[2] == ActionKind::AskRemove(entry.id)
                &&& removals(actions) == 1
                &&& launches(actions) == 0
            }),
    {
        let e0 = seq![EventKind::Created(entry), EventKind::Done, EventKind::Failed] + rest;
        let v0 = CreationView::start(players_limit);
        let (v1, a0) = v0.next(e0[0]);
        let e1 = e0.drop_first();
        let (v2, a1) = v1.next(e1[0]);
        let e2 = e1.drop_first();
        let (v3, a2) = v2.next(e2[0]);
        let e3 = e2.drop_first();
        assert(e3 =~= rest);
        let tail = v3.actions(e3);
        v3.lemma_nothing_after_the_end(e3);
        v3.lemma_actions_len(e3);
        let t2 = v2.actions(e2);
        let t1 = v1.actions(e1);
        let t0 = v0.actions(e0);
        assert(t2 == seq![a2] + tail);
        assert(t1 == seq![a1] + t2);
        assert(t0 == seq![a0] + t1);
        assert(t2.drop_first() =~= tail);
        assert(t1.drop_first() =~= t2);
        assert(t0.drop_first() =~= t1);
        v0.lemma_actions_len(e0);
        assert(a0 == ActionKind::CreateClient);
        assert(a1 == ActionKind::Connect);
        assert(a2 == ActionKind::AskRemove(entry.id));
        assert(t0[2] == t1[1]);
        assert(t1[1] == t2[0]);
        assert(removals(t2) == 1 + removals(tail));
        assert(removals(t1) == removals(t2));
        assert(removals(t0) == removals(t1));
        assert(launches(t2) == launches(tail));
        assert(launches(t1) == launches(t2));
        assert(launches(t0) == launches(t1));
    }

    /// The creation as it is after `events`, one after the other.
    pub open spec fn after(self, events: Seq<EventKind>) -> CreationView
        decreases events.len(),
    {
        if events.len() == 0 {
            self
        } else {
            self.next(events[0]).0.after(events.drop_first())
        }
    }

    /// A creation whose record is made and which comes to its end without
    /// spawning a runtime has asked the repository exactly once to remove
    /// the record.
    pub proof fn lemma_unlaunched_is_rolled_back(self, events: Seq<EventKind>)
        requires
            self.wf(),
            self.stage != Stage::AwaitingEntry,
            self.stage != Stage::RollingBack,
            self.stage != Stage::Finished,
            self.after(events).stage == Stage::Finished,
            launches(self.actions(events)) == 0,
        ensures
            removals(self.actions(events)) == 1,
        decreases events.len(),
    {
        if events.len() > 0 {
            let (next, action) = self.next(events[0]);
            let rest = next.actions(events.drop_first());
            assert((seq![action] + rest).drop_first() =~= rest);
            self.lemma_next_wf(events[0]);
            if action is AskRemove {
                next.lemma_nothing_after_the_end(events.drop_first());
            } else {
                next.lemma_unlaunched_is_rolled_back(events.drop_first());
            }
        }
    }

    /// Every event is answered by one action.
    pub proof fn lemma_actions_len(self, events: Seq<EventKind>)
        ensures
            self.actions(events).len() == events.len(),
        decreases events.len(),
    {
        if events.len() > 0 {
            self.next(events[0]).0.lemma_actions_len(events.drop_first());
        }
    }
}


/// Why a creation failed, as specifications see it.
pub enum Failure {
    Unknown(Seq<char>),
    Mqtt(Seq<char>),
    Encoding(Seq<char>),
    Reset,
}

impl View for RoomCreationError {
    type V = Failure;

    open spec fn view(&self) -> Failure {
        match self {
            RoomCreationError::UnknownError(text) => Failure::Unknown(text@),
            RoomCreationError::MqttConnectionError(text) => Failure::Mqtt(text@),
            RoomCreationError::MsgEncodingError(text) => Failure::Encoding(text@),
            RoomCreationError::ConnectionReset => Failure::Reset,
        }
    }
}

/// The failure that `event` is when it comes in place of the news that the
/// broker client did what it was asked: what the client said, or the
/// remark that the repository spoke out of turn.
pub open spec fn failure_of(event: CreationEvent) -> Failure {
    match event {
        CreationEvent::Broker(Err(text)) => Failure::Mqtt(text@),
        _ => Failure::Unknown("the repository answered out of turn"@),
    }
}

/// The failure of a creation for which the repository made no record.
pub open spec fn no_record() -> Failure {
    Failure::Unknown("couldn't complete creation request in room repository"@)
}

/// The creation of one room, from the request to the launch of the
/// runtime or to the failure.
#[derive(Debug)]
pub struct RoomCreation {
    stage: Stage,
    config: Config,
    request: NewRoomReq,
    room: Option<RoomData>,
    error: Option<RoomCreationError>,
}

impl View for RoomCreation {
    type V = CreationView;

    closed spec fn view(&self) -> CreationView {
        CreationView {
            stage: self.stage,
            players_limit: self.request.players_limit,
            entry: match self.room {
                Some(rd) => Some(rd.entry),
                None => None,
            },
        }
    }
}

impl RoomCreation {
    #[verifier::type_invariant]
    spec fn inv(self) -> bool {
        &&& self@.wf()
        &&& self.room matches Some(rd) ==> rd.players_limit == self.request.players_limit
            && rd.rounds_limit == self.request.rounds_limit
        &&& (self.stage == Stage::Disconnecting || self.stage == Stage::RollingBack)
            ==> self.error is Some
    }

    /// The name of the room, once its record is made.
    pub closed spec fn name(&self) -> Seq<char> {
        self.room->0.name()
    }

    /// Where the broker is.
    pub closed spec fn host(&self) -> Seq<char> {
        self.config.mqtt.host@
    }

    /// How many rounds the room is to play.
    pub closed spec fn rounds_limit(&self) -> usize {
        self.request.rounds_limit
    }

    /// Why the creation is failing, once it is.
    pub closed spec fn failure(&self) -> Option<Failure> {
        match self.error {
            Some(error) => Some(error@),
            None => None,
        }
    }

    /// How far the creation has come.
    pub fn stage(&self) -> (stage: Stage)
        ensures
            stage == self@.stage,
            self@.wf(),
    {
        proof {
            use_type_invariant(self);
        }
        self.stage
    }

    /// Takes note of `event` and says what to do next; gives the creation
    /// as it is afterwards.
    pub fn advance(self, event: CreationEvent) -> (r: (Self, CreationAction))
        ensures
            (r.0@, r.1.kind()) == self@.next(event.kind()),
            r.0.host() == self.host(),
            r.0.rounds_limit() == self.rounds_limit(),
            self@.stage != Stage::AwaitingEntry && r.0@.stage != Stage::Finished ==> r.0.name()
                == self.name(),
            self@.stage == Stage::AwaitingEntry ==> (event.kind() matches EventKind::Created(entry)
                ==> r.0.name() == base64_text(entry.id@)),
            self@.stage == Stage::Disconnecting ==> r.0.failure() == self.failure(),
            self@.stage != Stage::Disconnecting && (r.0@.stage == Stage::Disconnecting || r.0@.stage
                == Stage::RollingBack) ==> r.0.failure() == Some(failure_of(event)),
            match r.1 {
                CreationAction::CreateClient(options) => options.is_for(r.0.name(), self.host()),
                CreationAction::Connect(options) => options.is_for(self.name()),
                CreationAction::Subscribe(subscription) => subscription.is_default(
                    ROOM_CHANNEL_PREFIX@,
                    self.name(),
                    self@.players_limit,
                ),
                CreationAction::Announce(publication) => publication.carries(
                    ROOM_CHANNEL_PREFIX@,
                    self.name(),
                    Sender::Global,
                    Response::RuntimeStarted,
                ),
                CreationAction::Launch(task, resp) => {
                    &&& task.room() == RoomView::initial(
                        self@.entry->0.id@,
                        self@.entry->0.password,
                        self@.players_limit,
                        self.rounds_limit(),
                    )
                    &&& task.name() == self.name()
                    &&& task.ident() == self@.entry->0.id
                    &&& task.link() == Link::Listening
                    &&& resp.name() == self.name()
                    &&& resp.pass() == self@.entry->0.password
                },
                CreationAction::Fail(error) => if self@.stage == Stage::AwaitingEntry {
                    error@ == no_record()
                } else {
                    Some(error@) == self.failure()
                },
                _ => true,
            },
    {
        proof {
            use_type_invariant(&self);
        }
        let ghost before = self;
        let RoomCreation { stage, config, request, room, error } = self;
        match stage {
            Stage::AwaitingEntry => match event {
                CreationEvent::Repository(Ok(RepResp::RoomCreated(entry))) => {
                    let rd = RoomData::new(entry, request.players_limit, request.rounds_limit);
                    let options = get_creation_mqtt_options(
                        rd.id_as_base64.as_str(),
                        config.mqtt.host.as_str(),
                    );
                    (
                        RoomCreation {
                            stage: Stage::CreatingClient,
                            config,
                            request,
                            room: Some(rd),
                            error,
                        },
                        CreationAction::CreateClient(options),
                    )
                },
                _ => (
                    RoomCreation { stage: Stage::Finished, config, request, room, error },
                    CreationAction::Fail(
                        RoomCreationError::UnknownError(
                            String::from_str(
                                "couldn't complete creation request in room repository",
                            ),
                        ),
                    ),
                ),
            },
            Stage::Finished => (
                RoomCreation { stage, config, request, room, error },
                CreationAction::Idle,
            ),
            Stage::RollingBack => match error {
                Some(error) => (
                    RoomCreation { stage: Stage::Finished, config, request, room, error: None },
                    CreationAction::Fail(error),
                ),
                None => (
                    RoomCreation { stage: Stage::Finished, config, request, room, error: None },
                    CreationAction::Idle,
                ),
            },
            _ => match room {
                Some(rd) => on_broker(stage, config, request, rd, error, event),
                None => (
                    RoomCreation { stage: Stage::Finished, config, request, room: None, error },
                    CreationAction::Idle,
                ),
            },
        }
    }
}

/// The error that `event` is when it comes in place of the news that the
/// broker client did what it was asked.
fn error_of(event: CreationEvent) -> (error: RoomCreationError)
    ensures
        error@ == failure_of(event),
{
    match event {
        CreationEvent::Broker(Err(text)) => RoomCreationError::MqttConnectionError(text),
        _ => RoomCreationError::UnknownError(
            String::from_str("the repository answered out of turn"),
        ),
    }
}

/// The step of a creation whose record is made and whose runtime is not
/// launched yet.
fn on_broker(
    stage: Stage,
    config: Config,
    request: NewRoomReq,
    rd: RoomData,
    error: Option<RoomCreationError>,
    event: CreationEvent,
) -> (r: (RoomCreation, CreationAction))
    requires
        stage == Stage::CreatingClient || stage == Stage::Connecting || stage == Stage::Subscribing
            || stage == Stage::Disconnecting || stage == Stage::Announcing,
        rd.players_limit == request.players_limit,
        rd.rounds_limit == request.rounds_limit,
        stage == Stage::Disconnecting ==> error is Some,
    ensures
        (r.0@, r.1.kind()) == (CreationView {
            stage,
            players_limit: request.players_limit,
            entry: Some(rd.entry),
        }).next(event.kind()),
        r.0.host() == config.mqtt.host@,
        r.0.rounds_limit() == request.rounds_limit,
        r.0@.stage != Stage::Finished ==> r.0.name() == rd.name(),
        stage == Stage::Disconnecting ==> r.0.failure() == match error {
            Some(error) => Some(error@),
            None => None,
        },
        stage != Stage::Disconnecting && (r.0@.stage == Stage::Disconnecting || r.0@.stage
            == Stage::RollingBack) ==> r.0.failure() == Some(failure_of(event)),
        match r.1 {
            CreationAction::Connect(options) => options.is_for(rd.name()),
            CreationAction::Subscribe(subscription) => subscription.is_default(
                ROOM_CHANNEL_PREFIX@,
                rd.name(),
                request.players_limit,
            ),
            CreationAction::Announce(publication) => publication.carries(
                ROOM_CHANNEL_PREFIX@,
                rd.name(),
                Sender::Global,
                Response::RuntimeStarted,
            ),
            CreationAction::Launch(task, resp) => {
                &&& task.room() == RoomView::initial(
                    rd.entry.id@,
                    rd.entry.password,
                    request.players_limit,
                    request.rounds_limit,
                )
                &&& task.name() == rd.name()
                &&& task.ident() == rd.entry.id
                &&& task.link() == Link::Listening
                &&& resp.name() == rd.name()
                &&& resp.pass() == rd.entry.password
            },
            CreationAction::CreateClient(_) => false,
            CreationAction::Fail(_) => false,
            _ => true,
        },
{
    let done = match &event {
        CreationEvent::Broker(Ok(_)) => true,
        _ => false,
    };
    let room_id = rd.entry.id;
    match (stage, done) {
        (Stage::CreatingClient, true) => {
            let options = get_connection_options(get_lwt_mess(rd.id_as_base64.as_str()));
            (
                RoomCreation { stage: Stage::Connecting, config, request, room: Some(rd), error },
                CreationAction::Connect(options),
            )
        },
        (Stage::Connecting, true) => {
            let subscription = subscribe_default(
                ROOM_CHANNEL_PREFIX,
                rd.id_as_base64.as_str(),
                rd.players_limit,
            );
            (
                RoomCreation { stage: Stage::Subscribing, config, request, room: Some(rd), error },
                CreationAction::Subscribe(subscription),
            )
        },
        (Stage::Subscribing, true) => {
            let publication = send_rt_start_msg(ROOM_CHANNEL_PREFIX, rd.id_as_base64.as_str());
            (
                RoomCreation { stage: Stage::Announcing, config, request, room: Some(rd), error },
                CreationAction::Announce(publication),
            )
        },
        (Stage::Subscribing, false) => (
            RoomCreation {
                stage: Stage::Disconnecting,
                config,
                request,
                room: Some(rd),
                error: Some(error_of(event)),
            },
            CreationAction::Disconnect,
        ),
        (Stage::Announcing, true) => {
            let resp = NewRoomResp::new(rd.id_as_base64.clone(), rd.entry.password);
            let task = RoomTask::new(rd, config.clone());
            (
                RoomCreation { stage: Stage::Finished, config, request, room: None, error },
                CreationAction::Launch(task, resp),
            )
        },
        (Stage::Disconnecting, _) => (
            RoomCreation { stage: Stage::RollingBack, config, request, room: Some(rd), error },
            CreationAction::Ask(RepReq::RemoveRoom { room_id }),
        ),
        _ => (
            RoomCreation {
                stage: Stage::RollingBack,
                config,
                request,
                room: Some(rd),
                error: Some(error_of(event)),
            },
            CreationAction::Ask(RepReq::RemoveRoom { room_id }),
        ),
    }
}

/// Starts the creation of a room as `room_req` asks for, under the
/// settings `config`: the first thing to do is to ask the repository for
/// a record.
pub fn create_new_room(config: Config, room_req: NewRoomReq) -> (r: (RoomCreation, CreationAction))
    ensures
        r.0@ == CreationView::start(room_req.players_limit),
        r.0.host() == config.mqtt.host@,
        r.0.rounds_limit() == room_req.rounds_limit,
        r.1.kind() == ActionKind::AskCreate(room_req.players_limit),
{
    (
        RoomCreation {
            stage: Stage::AwaitingEntry,
            config,
            request: room_req,
            room: None,
            error: None,
        },
        CreationAction::Ask(RepReq::CreateRoom { players_limit: room_req.players_limit }),
    )
}

} // verus!
