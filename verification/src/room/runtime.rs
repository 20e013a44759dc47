//! The runtime of one room: the owner of its game for as long as it lives.
use crate::config::Config;
use crate::deps::random_token;
use crate::message::Request;
use crate::room::model::{Room, RoomView};
use crate::service::Command;
use crate::topic::{parse_sender, sender_of};
use vstd::prelude::*;

verus! {

/// A room and the settings it runs under.
#[derive(Debug)]
pub struct Runtime {
    _rd: Room,
    _config: Config,
}

impl Runtime {
    /// Whether the room held keeps its invariant. `new` sees to it and
    /// `process_msg` keeps it so.
    pub closed spec fn wf(&self) -> bool {
        self._rd@.wf()
    }

    /// The room, as specifications see it.
    pub closed spec fn room(&self) -> RoomView {
        self._rd@
    }

    /// A runtime around the room `rd`, under the settings `config`.
    pub fn new(rd: Room, config: Config) -> (rt: Self)
        requires
            rd@.wf(),
        ensures
            rt.wf(),
            rt.room() == rd@,
    {
        Self { _rd: rd, _config: config }
    }

    /// A runtime that keeps its invariant holds a room that keeps its own.
    pub proof fn lemma_wf(&self)
        requires
            self.wf(),
        ensures
            self.room().wf(),
    {
    }

    /// The room as it stands.
    pub fn current(&self) -> (rd: &Room)
        ensures
            rd@ == self.room(),
            self.wf() ==> rd@.wf(),
    {
        &self._rd
    }

    /// Treats the request `msg` that came on the topic of `player`, which
    /// is `rt` or the number of a player: moves the room on and says what
    /// to publish. A request that names nobody is passed over. A player
    /// who joins is given a credential drawn at random.
    pub fn process_msg(&mut self, player: &str, msg: Request) -> (command: Command)
        requires
            old(self).wf(),
        ensures
            final(self).wf(),
            match sender_of(player@) {
                Some(sender) => {
                    &&& exists|token: usize|
                        final(self).room() == #[trigger] old(self).room().next(sender, msg, token)
                    &&& command == old(self).room().reply(sender, msg)
                },
                None => final(self).room() == old(self).room() && command == Command::Skip,
            },
    {
        match parse_sender(player) {
            Some(sender) => {
                let token = random_token();
                let command = self._rd.process(sender, msg, token);
                assert(self.room() == old(self).room().next(sender, msg, token));
                command
            },
            None => Command::Skip,
        }
    }
}

} // verus!
