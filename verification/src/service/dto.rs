//! What the HTTP surface takes in and hands out.
use crate::deps::{base64_encode, base64_text};
use crate::repository::RoomEntry;
use vstd::prelude::*;

verus! {

/// The body of a request for a new room.
#[derive(Debug, Clone, Copy, PartialEq, Eq, Structural)]
pub struct NewRoomReq {
    pub players_limit: usize,
    pub rounds_limit: usize,
}

/// The body of the answer to a request for a new room: the name of the
/// room, which is its identifier in base64, and its password.
#[derive(Debug, PartialEq, Eq)]
pub struct NewRoomResp {
    id: String,
    password: i64,
}

/// The body of a request that announces a player.
#[derive(Debug, PartialEq, Eq)]
pub struct NewPlayerReq {
    id: usize,
    password: u64,
    name: String,
}

impl NewRoomResp {
    /// The name of the room, as specifications see it.
    pub closed spec fn name(&self) -> Seq<char> {
        self.id@
    }

    /// The password of the room, as specifications see it.
    pub closed spec fn pass(&self) -> i64 {
        self.password
    }

    /// The answer that names the room `id` and gives its password.
    pub fn new(id: String, password: i64) -> (resp: Self)
        ensures
            resp.name() == id@,
            resp.pass() == password,
    {
        Self { id, password }
    }

    /// The answer for the room that the store keeps as `room`.
    pub fn from(room: &RoomEntry) -> (resp: Self)
        ensures
            resp.name() == base64_text(room.id@),
            resp.pass() == room.password,
    {
        Self { id: base64_encode(&room.id), password: room.password }
    }

    /// The name of the room.
    pub fn id(&self) -> (id: &String)
        ensures
            id@ == self.name(),
    {
        &self.id
    }

    /// The password of the room.
    pub fn password(&self) -> (password: i64)
        ensures
            password == self.pass(),
    {
        self.password
    }
}

impl NewPlayerReq {
    /// The announcement of the player `id`, called `name`, under
    /// `password`.
    pub fn new(id: usize, password: u64, name: String) -> (req: Self)
        ensures
            req.number() == id,
            req.pass() == password,
            req.called() == name@,
    {
        Self { id, password, name }
    }

    /// The number of the player, as specifications see it.
    pub closed spec fn number(&self) -> usize {
        self.id
    }

    /// The password of the player, as specifications see it.
    pub closed spec fn pass(&self) -> u64 {
        self.password
    }

    /// The name of the player, as specifications see it.
    pub closed spec fn called(&self) -> Seq<char> {
        self.name@
    }

    /// The number of the player.
    pub fn id(&self) -> (id: usize)
        ensures
            id == self.number(),
    {
        self.id
    }

    /// The password of the player.
    pub fn password(&self) -> (password: u64)
        ensures
            password == self.pass(),
    {
        self.password
    }

    /// The name of the player.
    pub fn name(&self) -> (name: &String)
        ensures
            name@ == self.called(),
    {
        &self.name
    }
}

} // verus!
