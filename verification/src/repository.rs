//! The records that the document store keeps and the repository actor,
//! their single owner.
//!
//! The actor takes requests from a bounded queue, one at a time and in the
//! order in which they came. What it asks of the store and what it answers
//! is decided here; the queue and the store themselves are the caller's.
use crate::deps::random_password;
use vstd::prelude::*;

verus! {

/// The identifier that the document store assigns to a record.
pub type EntryId = [u8; 12];

/// How many requests the queue of the actor holds at most.
pub const REQUEST_QUEUE_CAPACITY: usize = 256;

/// A user of the broker, as the store keeps it.
#[derive(Debug, Clone, Copy, PartialEq, Eq)]
pub struct UserEntry {
    pub username: EntryId,
    pub password: i64,
}

/// A room, as the store keeps it.
#[derive(Debug, Clone, Copy, PartialEq, Eq)]
pub struct RoomEntry {
    pub id: EntryId,
    pub password: i64,
    pub players_limit: usize,
    pub current_players: usize,
}

/// What is asked of the repository.
#[derive(Debug, Clone, Copy, PartialEq, Eq)]
pub enum RepReq {
    CreateRoom { players_limit: usize },
    RemoveRoom { room_id: EntryId },
    CreateRuntimeUser { room_id: EntryId },
    CreatePlayerUser { room_id: EntryId },
    Close,
}

/// What the repository answers.
#[derive(Debug, Clone, Copy, PartialEq, Eq)]
pub enum RepResp {
    RoomCreated(RoomEntry),
    RoomRemoved,
    ClosingRepository,
    UserCreated(UserEntry),
}

/// Why the repository gave no answer.
#[derive(Debug, Clone, Copy, PartialEq, Eq)]
pub enum RepError {
    /// The queue of the actor, or the way back from it, is closed.
    ChannelClosed,
    /// The store failed, or cannot hold what was asked.
    StoreError,
}

/// The two kinds of broker users.
#[derive(Debug, Clone, Copy, PartialEq, Eq)]
pub enum UserKind {
    /// The runtime of a room; `rt` in the store.
    Runtime,
    /// A player of a room; `player` in the store.
    Player,
}

/// What the actor asks of the document store.
#[derive(Debug, Clone, Copy, PartialEq, Eq)]
pub enum StoreOp {
    /// Insert a document into the collection of rooms.
    InsertRoom { room_pass: i64, players_limit: i64, curr_players: i32 },
    /// Delete a document from the collection of rooms.
    RemoveRoom { room_id: EntryId },
    /// Insert a document into the collection of users.
    InsertUser { password: i64, kind: UserKind, room_id: EntryId },
}

/// What the document store did.
#[derive(Debug, Clone, Copy, PartialEq, Eq)]
pub enum StoreOutcome {
    /// The document is in, under this identifier.
    Inserted(EntryId),
    /// The document is gone.
    Removed,
    /// The store failed.
    Failed,
}

/// What the actor does with a request.
#[derive(Debug, Clone, Copy, PartialEq, Eq)]
pub enum Step {
    /// Ask the store, and answer the caller with what `answer` makes of
    /// the outcome.
    Store(StoreOp),
    /// Answer the caller at once.
    Reply(Result<RepResp, RepError>),
    /// Close the queue to new requests, then answer the caller
    /// `ClosingRepository`; what is queued already is still served.
    Shutdown,
}

/// The actor that owns the document store.
#[derive(Debug)]
pub struct DataRepository {
    closing: bool,
}

impl RoomEntry {
    /// The invariant of a room record: no more players than seats.
    pub open spec fn wf(&self) -> bool {
        self.current_players <= self.players_limit
    }

    /// The record of a room just created: nobody is in it.
    pub fn new(id: EntryId, password: i64, players_limit: usize) -> (entry: RoomEntry)
        ensures
            entry == (RoomEntry { id, password, players_limit, current_players: 0 }),
            entry.wf(),
    {
        RoomEntry { id, password, players_limit, current_players: 0 }
    }
}

/// The document of a new room of `players_limit` seats under the password
/// `room_pass`, or the refusal of a number of seats that the store cannot
/// hold.
pub open spec fn room_insertion(players_limit: usize, room_pass: i64) -> Step {
    if players_limit <= i64::MAX {
        Step::Store(
            StoreOp::InsertRoom { room_pass, players_limit: players_limit as i64, curr_players: 0 },
        )
    } else {
        Step::Reply(Err(RepError::StoreError))
    }
}

/// The document of a new broker user of `kind` for the room `room_id`,
/// under the password `password`.
pub open spec fn user_insertion(kind: UserKind, room_id: EntryId, password: i64) -> Step {
    Step::Store(StoreOp::InsertUser { password, kind, room_id })
}

/// What the actor does with `req`. `password` is the one that a room or a
/// user created is given.
pub open spec fn step_for(req: RepReq, password: i64) -> Step {
    match req {
        RepReq::CreateRoom { players_limit } => room_insertion(players_limit, password),
        RepReq::RemoveRoom { room_id } => Step::Store(StoreOp::RemoveRoom { room_id }),
        RepReq::CreateRuntimeUser { room_id } => user_insertion(
            UserKind::Runtime,
            room_id,
            password,
        ),
        RepReq::CreatePlayerUser { room_id } => user_insertion(UserKind::Player, room_id, password),
        RepReq::Close => Step::Shutdown,
    }
}

/// What the caller is answered once the store has done `op` with
/// `outcome`.
pub open spec fn answer_for(op: StoreOp, outcome: StoreOutcome) -> Result<RepResp, RepError> {
    match (op, outcome) {
        (StoreOp::InsertRoom { room_pass, players_limit, curr_players }, StoreOutcome::Inserted(id)) => {
            if 0 <= players_limit <= usize::MAX {
                Ok(
                    RepResp::RoomCreated(
                        RoomEntry {
                            id,
                            password: room_pass,
                            players_limit: players_limit as usize,
                            current_players: 0,
                        },
                    ),
                )
            } else {
                Err(RepError::StoreError)
            }
        },
        (StoreOp::RemoveRoom { room_id }, StoreOutcome::Removed) => Ok(RepResp::RoomRemoved),
        (StoreOp::InsertUser { password, kind, room_id }, StoreOutcome::Inserted(id)) => Ok(
            RepResp::UserCreated(UserEntry { username: id, password }),
        ),
        _ => Err(RepError::StoreError),
    }
}

/// The name of a kind of user in the store.
pub fn kind_name(kind: UserKind) -> (name: &'static str)
    ensures
        name@ == match kind {
            UserKind::Runtime => "rt"@,
            UserKind::Player => "player"@,
        },
{
    match kind {
        UserKind::Runtime => "rt",
        UserKind::Player => "player",
    }
}

/// The step that creates a room of `players_limit` seats under the
/// password `room_pass`.
pub fn insert_room(players_limit: usize, room_pass: i64) -> (step: Step)
    ensures
        step == room_insertion(players_limit, room_pass),
{
    if players_limit as u64 <= i64::MAX as u64 {
        Step::Store(
            StoreOp::InsertRoom { room_pass, players_limit: players_limit as i64, curr_players: 0 },
        )
    } else {
        Step::Reply(Err(RepError::StoreError))
    }
}

impl DataRepository {
    /// An actor that has not been told to close.
    pub fn new() -> (rep: Self)
        ensures
            !rep.is_closing(),
    {
        DataRepository { closing: false }
    }

    /// Whether the actor has been told to close.
    pub closed spec fn is_closing(&self) -> bool {
        self.closing
    }

    /// Whether the actor has been told to close.
    pub fn closing(&self) -> (b: bool)
        ensures
            b == self.is_closing(),
    {
        self.closing
    }

    /// What to do with `req` when `password` is the password to hand out.
    /// A request is served the same whether the actor is closing or not.
    pub fn serve_with(&mut self, req: RepReq, password: i64) -> (step: Step)
        ensures
            step == step_for(req, password),
            final(self).is_closing() == (old(self).is_closing() || req == RepReq::Close),
    {
        match req {
            RepReq::CreateRoom { players_limit } => insert_room(players_limit, password),
            RepReq::RemoveRoom { room_id } => Step::Store(StoreOp::RemoveRoom { room_id }),
            RepReq::CreateRuntimeUser { room_id } => Step::Store(
                StoreOp::InsertUser { password, kind: UserKind::Runtime, room_id },
            ),
            RepReq::CreatePlayerUser { room_id } => Step::Store(
                StoreOp::InsertUser { password, kind: UserKind::Player, room_id },
            ),
            RepReq::Close => {
                self.closing = true;
                Step::Shutdown
            },
        }
    }

    /// What to do with `req`. The password of a room or user that it
    /// creates is drawn at random.
    pub fn serve(&mut self, req: RepReq) -> (step: Step)
        ensures
            exists|password: i64| step == #[trigger] step_for(req, password),
            final(self).is_closing() == (old(self).is_closing() || req == RepReq::Close),
    {
        match req {
            RepReq::CreateRoom { players_limit } => {
                let step = self.create_room(players_limit);
                proof {
                    let password = choose|password: i64|
                        step == #[trigger] room_insertion(players_limit, password);
                    assert(step == step_for(req, password));
                }
                step
            },
            RepReq::RemoveRoom { room_id } => {
                let step = self.remove_room(room_id);
                assert(step == step_for(req, 0));
                step
            },
            RepReq::CreateRuntimeUser { room_id } => {
                let step = self.create_rt_user(room_id);
                proof {
                    let password = choose|password: i64|
                        step == #[trigger] user_insertion(UserKind::Runtime, room_id, password);
                    assert(step == step_for(req, password));
                }
                step
            },
            RepReq::CreatePlayerUser { room_id } => {
                let step = self.create_player_user(room_id);
                proof {
                    let password = choose|password: i64|
                        step == #[trigger] user_insertion(UserKind::Player, room_id, password);
                    assert(step == step_for(req, password));
                }
                step
            },
            RepReq::Close => {
                self.closing = true;
                assert(Step::Shutdown == step_for(req, 0));
                Step::Shutdown
            },
        }
    }

    /// The step that creates a room of `players_limit` seats, under a
    /// password drawn at random.
    pub fn create_room(&mut self, players_limit: usize) -> (step: Step)
        ensures
            exists|password: i64| step == #[trigger] room_insertion(players_limit, password),
            final(self).is_closing() == old(self).is_closing(),
    {
        let password = random_password();
        let step = insert_room(players_limit, password);
        assert(step == room_insertion(players_limit, password));
        step
    }

    /// The step that removes the room `room`.
    pub fn remove_room(&mut self, room: EntryId) -> (step: Step)
        ensures
            step == Step::Store(StoreOp::RemoveRoom { room_id: room }),
            final(self).is_closing() == old(self).is_closing(),
    {
        Step::Store(StoreOp::RemoveRoom { room_id: room })
    }

    /// The step that creates the broker user of the runtime of `room`,
    /// under a password drawn at random.
    pub fn create_rt_user(&mut self, room: EntryId) -> (step: Step)
        ensures
            exists|password: i64|
                step == #[trigger] user_insertion(UserKind::Runtime, room, password),
            final(self).is_closing() == old(self).is_closing(),
    {
        let password = random_password();
        let step = Step::Store(
            StoreOp::InsertUser { password, kind: UserKind::Runtime, room_id: room },
        );
        assert(step == user_insertion(UserKind::Runtime, room, password));
        step
    }

    /// The step that creates the broker user of a player of `room`, under
    /// a password drawn at random.
    pub fn create_player_user(&mut self, room: EntryId) -> (step: Step)
        ensures
            exists|password: i64|
                step == #[trigger] user_insertion(UserKind::Player, room, password),
            final(self).is_closing() == old(self).is_closing(),
    {
        let password = random_password();
        let step = Step::Store(
            StoreOp::InsertUser { password, kind: UserKind::Player, room_id: room },
        );
        assert(step == user_insertion(UserKind::Player, room, password));
        step
    }

    /// What to answer the caller once the store has done `op` with
    /// `outcome`.
    pub fn answer(op: StoreOp, outcome: StoreOutcome) -> (r: Result<RepResp, RepError>)
        ensures
            r == answer_for(op, outcome),
            r matches Ok(RepResp::RoomCreated(entry)) ==> entry.wf(),
    {
        match (op, outcome) {
            (
                StoreOp::InsertRoom { room_pass, players_limit, curr_players },
                StoreOutcome::Inserted(id),
            ) => {
                if 0 <= players_limit && players_limit as u64 <= usize::MAX as u64 {
                    Ok(RepResp::RoomCreated(RoomEntry::new(id, room_pass, players_limit as usize)))
                } else {
                    Err(RepError::StoreError)
                }
            },
            (StoreOp::RemoveRoom { room_id }, StoreOutcome::Removed) => Ok(RepResp::RoomRemoved),
            (StoreOp::InsertUser { password, kind, room_id }, StoreOutcome::Inserted(id)) => Ok(
                RepResp::UserCreated(UserEntry { username: id, password }),
            ),
            _ => Err(RepError::StoreError),
        }
    }
}


/// The actor and its queue, as specifications see them: what is queued,
/// whether the queue is closed to new requests, what has been served, and
/// whether the actor is still running.
pub struct ActorModel {
    pub queue: Seq<RepReq>,
    pub closed: bool,
    pub served: Seq<RepReq>,
    pub running: bool,
}

/// What happens around the actor: someone offers a request, or the actor
/// takes its turn.
pub enum ActorEvent {
    Offer(RepReq),
    Turn,
}

impl ActorModel {
    /// The actor as it starts: nothing queued, nothing served.
    pub open spec fn start() -> ActorModel {
        ActorModel { queue: Seq::empty(), closed: false, served: Seq::empty(), running: true }
    }

    /// Whether a request offered now is taken into the queue.
    pub open spec fn accepts(self) -> bool {
        !self.closed && self.queue.len() < REQUEST_QUEUE_CAPACITY
    }

    /// The model after `req` was offered: queued if it is accepted.
    pub open spec fn offer(self, req: RepReq) -> ActorModel {
        if self.accepts() {
            ActorModel { queue: self.queue.push(req), ..self }
        } else {
            self
        }
    }

    /// The model after the actor's turn: it serves the request at the head
    /// of the queue, closing the queue when `step_for` says `Shutdown`; it
    /// returns when the queue is closed and empty; else it waits.
    pub open spec fn turn(self) -> ActorModel {
        if !self.running {
            self
        } else if self.queue.len() > 0 {
            ActorModel {
                queue: self.queue.drop_first(),
                served: self.served.push(self.queue[0]),
                closed: self.closed || step_for(self.queue[0], 0) is Shutdown,
                ..self
            }
        } else if self.closed {
            ActorModel { running: false, ..self }
        } else {
            self
        }
    }

    /// The model after `n` turns in a row.
    pub open spec fn turns(self, n: nat) -> ActorModel
        decreases n,
    {
        if n == 0 {
            self
        } else {
            self.turn().turns((n - 1) as nat)
        }
    }

    /// The model after `events`, one after the other.
    pub open spec fn run(self, events: Seq<ActorEvent>) -> ActorModel
        decreases events.len(),
    {
        if events.len() == 0 {
            self
        } else {
            let first = match events[0] {
                ActorEvent::Offer(req) => self.offer(req),
                ActorEvent::Turn => self.turn(),
            };
            first.run(events.drop_first())
        }
    }

    /// The actor closes its queue with `Close` and with nothing else,
    /// whatever password is at hand.
    pub proof fn lemma_shutdown_is_close(req: RepReq, password: i64)
        ensures
            step_for(req, password) is Shutdown <==> req is Close,
    {
    }

    /// The turn that serves `Close` closes the queue, and the actor keeps
    /// running.
    pub proof fn lemma_close_closes(self)
        requires
            self.running,
            self.queue.len() > 0,
            self.queue[0] is Close,
        ensures
            self.turn().closed,
            self.turn().running,
            self.turn().served == self.served.push(self.queue[0]),
    {
    }

    /// The actor returns only from a closed and empty queue.
    pub proof fn lemma_returns_when_drained(self)
        requires
            self.running,
            !self.turn().running,
        ensures
            self.closed,
            self.queue.len() == 0,
    {
    }

    /// Once the queue is closed no request is taken any more: whatever
    /// happens, what is served and what is queued make up, in order, what
    /// they made up before.
    pub proof fn lemma_closed_takes_nothing(self, events: Seq<ActorEvent>)
        requires
            self.closed,
        ensures
            self.run(events).closed,
            self.run(events).served + self.run(events).queue == self.served + self.queue,
        decreases events.len(),
    {
        if events.len() > 0 {
            let first = match events[0] {
                ActorEvent::Offer(req) => self.offer(req),
                ActorEvent::Turn => self.turn(),
            };
            assert(first.served + first.queue =~= self.served + self.queue);
            first.lemma_closed_takes_nothing(events.drop_first());
        }
    }

    /// With `Close` in the queue, and nothing more offered, the actor serves
    /// all that is queued, in order, what stands before `Close` and what
    /// stands after it, closes the queue when it comes to `Close`, and then
    /// returns.
    pub proof fn lemma_close_in_queue(self, at: int)
        requires
            self.running,
            0 <= at < self.queue.len(),
            self.queue[at] is Close,
        ensures
            self.turns((at + 1) as nat).closed,
            self.turns(self.queue.len()).running,
            self.turns(self.queue.len()).served == self.served + self.queue,
            !self.turns(self.queue.len() + 1).running,
        decreases at,
    {
        let n = self.queue.len();
        let next = self.turn();
        assert(self.turns(n) == next.turns((n - 1) as nat));
        assert(self.turns(n + 1) == next.turns(n as nat));
        assert(self.turns((at + 1) as nat) == next.turns(at as nat));
        if at == 0 {
            assert(next.turns(0) == next);
            next.lemma_close_drains();
            assert(next.served + next.queue =~= self.served + self.queue);
        } else {
            assert(next.queue[at - 1] == self.queue[at]);
            next.lemma_close_in_queue(at - 1);
            assert(next.served + next.queue =~= self.served + self.queue);
        }
    }

    /// After the queue is closed the actor serves all that is queued, in
    /// order, and then returns.
    pub proof fn lemma_close_drains(self)
        requires
            self.running,
            self.closed,
        ensures
            self.turns(self.queue.len()).running,
            self.turns(self.queue.len()).served == self.served + self.queue,
            self.turns(self.queue.len()).queue.len() == 0,
            !self.turns(self.queue.len() + 1).running,
            self.turns(self.queue.len() + 1).served == self.served + self.queue,
        decreases self.queue.len(),
    {
        let n = self.queue.len();
        if n == 0 {
            assert(self.turns(0) == self);
            assert(self.turns(1) == self.turn().turns(0));
            assert(self.served + self.queue =~= self.served);
        } else {
            let next = self.turn();
            next.lemma_close_drains();
            assert(next.queue.len() == n - 1);
            assert(self.turns(n) == next.turns((n - 1) as nat));
            assert(self.turns(n + 1) == next.turns(n as nat));
            assert(next.served + next.queue =~= self.served + self.queue);
        }
    }
}

} // verus!
