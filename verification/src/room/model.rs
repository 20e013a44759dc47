//! The game that a room hosts: its players, questions and rounds, and the
//! transitions that requests drive.
//!
//! The rules are stated once, over the views of the types, as the functions
//! `RoomView::next` and `RoomView::reply`; `Room::process` carries them out.
//!
//! A room takes players until it is full, then questions until it has one
//! for each round, then plays its rounds: in each, every player answers,
//! then every player votes. After the last round it is dead. Anyone may
//! join and anyone may ask for the state of the room; every other request
//! is heard only from a player of the room. A player who joins takes the
//! lowest free number. A vote goes to the answer of the lowest-numbered
//! player who gave one. A player who leaves is taken out of the room; what
//! they answered and voted stays in the round. Names, questions and
//! answers are empty texts, for the requests carry none.
use crate::message::{ErrResponse, Request, Response};
use crate::repository::EntryId;
use crate::service::Command;
use std::collections::HashMap;
use vstd::prelude::*;

verus! {

broadcast use vstd::std_specs::hash::group_hash_axioms;

pub type QuestionId = usize;

pub type RoomId = EntryId;

pub type PlayerId = usize;

pub type PlayerToken = usize;

pub type AnswerId = usize;

/// Who sent a request: anyone, on the room's shared topic, or one player,
/// on the topic of their own.
#[derive(Debug, Clone, Copy, PartialEq, Eq, Structural)]
pub enum Sender {
    Global,
    Player(PlayerId),
}

/// The phase of a room's life.
#[derive(Debug, Clone, Copy, PartialEq, Eq, Structural)]
pub enum RoomState {
    AcceptingPlayers,
    AcceptingQuestions,
    Playing,
    Dead,
}

/// The phase of a round.
#[derive(Debug, Clone, Copy, PartialEq, Eq, Structural)]
pub enum RoundState {
    AcceptingAnswers,
    Polling,
}

#[derive(Debug)]
pub struct Player {
    pub id: PlayerId,
    pub token: PlayerToken,
    pub name: String,
    pub points: usize,
}

#[derive(Debug)]
pub struct Question {
    pub id: QuestionId,
    /// Who asked it.
    pub player_id: PlayerId,
    pub content: String,
}

#[derive(Debug)]
pub struct Answer {
    pub id: AnswerId,
    /// Who gave it.
    pub player_id: PlayerId,
    pub content: String,
}

#[derive(Debug)]
pub struct Round {
    pub round_num: usize,
    pub state: RoundState,
    pub question: Question,
    /// The answers given, by the player who gave each.
    pub answers: HashMap<PlayerId, Answer>,
    /// The votes cast, by voter; a vote names the answer of a player.
    pub polls: HashMap<PlayerId, AnswerId>,
}

#[derive(Debug)]
pub struct Room {
    pub id: RoomId,
    pub pass: i64,
    pub players_limit: usize,
    pub players: Vec<Player>,
    pub rounds_limit: usize,
    pub questions: Vec<Question>,
    pub curr_round: Option<Round>,
    pub past_rounds: Vec<Round>,
    pub state: RoomState,
}

pub struct PlayerView {
    pub id: PlayerId,
    pub token: PlayerToken,
    pub name: Seq<char>,
    pub points: usize,
}

pub struct QuestionView {
    pub id: QuestionId,
    pub player_id: PlayerId,
    pub content: Seq<char>,
}

pub struct AnswerView {
    pub id: AnswerId,
    pub player_id: PlayerId,
    pub content: Seq<char>,
}

pub struct RoundView {
    pub round_num: usize,
    pub state: RoundState,
    pub question: QuestionView,
    pub answers: Map<PlayerId, AnswerView>,
    pub polls: Map<PlayerId, AnswerId>,
}

pub struct RoomView {
    pub id: Seq<u8>,
    pub pass: i64,
    pub players_limit: usize,
    pub players: Seq<PlayerView>,
    pub rounds_limit: usize,
    pub questions: Seq<QuestionView>,
    pub curr_round: Option<RoundView>,
    pub past_rounds: Seq<RoundView>,
    pub state: RoomState,
}

impl View for Player {
    type V = PlayerView;

    open spec fn view(&self) -> PlayerView {
        PlayerView { id: self.id, token: self.token, name: self.name@, points: self.points }
    }
}

impl View for Question {
    type V = QuestionView;

    open spec fn view(&self) -> QuestionView {
        QuestionView { id: self.id, player_id: self.player_id, content: self.content@ }
    }
}

impl View for Answer {
    type V = AnswerView;

    open spec fn view(&self) -> AnswerView {
        AnswerView { id: self.id, player_id: self.player_id, content: self.content@ }
    }
}

impl View for Round {
    type V = RoundView;

    open spec fn view(&self) -> RoundView {
        RoundView {
            round_num: self.round_num,
            state: self.state,
            question: self.question@,
            answers: self.answers@.map_values(|a: Answer| a@),
            polls: self.polls@,
        }
    }
}

impl View for Room {
    type V = RoomView;

    open spec fn view(&self) -> RoomView {
        RoomView {
            id: self.id@,
            pass: self.pass,
            players_limit: self.players_limit,
            players: self.players@.map_values(|p: Player| p@),
            rounds_limit: self.rounds_limit,
            questions: self.questions@.map_values(|q: Question| q@),
            curr_round: match self.curr_round {
                Some(r) => Some(r@),
                None => None,
            },
            past_rounds: self.past_rounds@.map_values(|r: Round| r@),
            state: self.state,
        }
    }
}

/// The response `r`, addressed to the one who asked: to the player alone,
/// or to the room when the request came on the shared topic.
pub open spec fn addressed(sender: Sender, r: Response) -> Response {
    match sender {
        Sender::Global => r,
        Sender::Player(p) => Response::Priv(p, Box::new(r)),
    }
}

impl RoundView {
    /// The first round of a game, or the one after another: no answers, no
    /// votes.
    pub open spec fn fresh(round_num: usize, question: QuestionView) -> RoundView {
        RoundView {
            round_num,
            state: RoundState::AcceptingAnswers,
            question,
            answers: Map::empty(),
            polls: Map::empty(),
        }
    }

    /// The lowest player number at or above `k` and below `limit` whose
    /// answer is recorded; `limit` when there is none.
    pub open spec fn answer_from(self, k: nat, limit: nat) -> nat
        decreases limit - k,
    {
        if k >= limit {
            limit
        } else if self.answers.contains_key(k as usize) {
            k
        } else {
            self.answer_from(k + 1, limit)
        }
    }

    /// What holds of a round in a room of `limit` seats with the players
    /// `players`.
    pub open spec fn wf(self, players: Seq<PlayerView>, limit: usize) -> bool {
        &&& forall|k: PlayerId| #[trigger]
            self.answers.contains_key(k) ==> k < limit && self.answers[k].id == k
                && self.answers[k].player_id == k
        &&& forall|k: PlayerId| #[trigger]
            self.polls.contains_key(k) ==> self.answers.contains_key(k)
                && self.answers.contains_key(self.polls[k])
        &&& self.state == RoundState::AcceptingAnswers ==> self.polls == Map::<
            PlayerId,
            AnswerId,
        >::empty()
        &&& self.state == RoundState::Polling ==> forall|i: int|
            0 <= i < players.len() ==> self.answers.contains_key(#[trigger] players[i].id)
    }
}

impl RoomView {
    /// How many players are in the room.
    pub open spec fn current_players(self) -> nat {
        self.players.len()
    }

    /// Whether a player numbered `p` is in the room.
    pub open spec fn has_player(self, p: PlayerId) -> bool {
        exists|i: int| 0 <= i < self.players.len() && #[trigger] self.players[i].id == p
    }

    /// Where in `players` the player numbered `p` stands.
    pub open spec fn seat(self, p: PlayerId) -> int {
        choose|i: int| 0 <= i < self.players.len() && #[trigger] self.players[i].id == p
    }

    /// Whether the sender is a player of the room.
    pub open spec fn is_member(self, sender: Sender) -> bool {
        sender matches Sender::Player(p) && self.has_player(p)
    }

    /// The lowest number at or above `k` and below the limit that no player
    /// of the room holds; the limit when there is none.
    pub open spec fn free_from(self, k: nat) -> nat
        decreases self.players_limit - k,
    {
        if k >= self.players_limit {
            self.players_limit as nat
        } else if !self.has_player(k as usize) {
            k
        } else {
            self.free_from(k + 1)
        }
    }

    /// Whether every player of the room has answered in `round`.
    pub open spec fn all_answered(self, round: RoundView) -> bool {
        forall|i: int|
            0 <= i < self.players.len() ==> round.answers.contains_key(#[trigger] self.players[i].id)
    }

    /// Whether every player of the room has voted in `round`.
    pub open spec fn all_voted(self, round: RoundView) -> bool {
        forall|i: int|
            0 <= i < self.players.len() ==> round.polls.contains_key(#[trigger] self.players[i].id)
    }

    /// The invariant of a room.
    pub open spec fn wf(self) -> bool {
        &&& self.id.len() == 12
        &&& self.players.len() <= self.players_limit
        &&& forall|i: int| 0 <= i < self.players.len() ==> (#[trigger] self.players[i]).id
            < self.players_limit
        &&& forall|i: int, j: int|
            0 <= i < self.players.len() && 0 <= j < self.players.len() && i != j ==> (
            #[trigger] self.players[i]).id != (#[trigger] self.players[j]).id
        &&& self.questions.len() <= self.rounds_limit
        &&& forall|i: int| 0 <= i < self.questions.len() ==> (#[trigger] self.questions[i]).id == i
        &&& self.past_rounds.len() <= self.rounds_limit
        &&& forall|i: int|
            0 <= i < self.past_rounds.len() ==> (#[trigger] self.past_rounds[i]).round_num == i
        &&& self.curr_round is Some <==> self.state == RoomState::Playing
        &&& match self.state {
            RoomState::AcceptingPlayers => self.questions.len() == 0 && self.past_rounds.len()
                == 0,
            RoomState::AcceptingQuestions => self.past_rounds.len() == 0 && (self.questions.len()
                < self.rounds_limit || self.rounds_limit == 0),
            RoomState::Playing => {
                let round = self.curr_round->0;
                &&& self.questions.len() == self.rounds_limit
                &&& self.past_rounds.len() < self.rounds_limit
                &&& round.round_num == self.past_rounds.len()
                &&& round.question == self.questions[round.round_num as int]
                &&& round.wf(self.players, self.players_limit)
            },
            RoomState::Dead => self.past_rounds.len() == self.rounds_limit,
        }
    }

    /// The room that `Room::new` makes.
    pub open spec fn initial(
        id: Seq<u8>,
        pass: i64,
        players_limit: usize,
        rounds_limit: usize,
    ) -> RoomView {
        RoomView {
            id,
            pass,
            players_limit,
            players: Seq::empty(),
            rounds_limit,
            questions: Seq::empty(),
            curr_round: None,
            past_rounds: Seq::empty(),
            state: RoomState::AcceptingPlayers,
        }
    }

    /// The room after a player with the credential `token` has taken the
    /// lowest free number.
    pub open spec fn joined(self, token: PlayerToken) -> RoomView {
        let player = PlayerView {
            id: self.free_from(0) as usize,
            token,
            name: Seq::empty(),
            points: 0,
        };
        RoomView {
            players: self.players.push(player),
            state: if self.players.len() + 1 == self.players_limit {
                RoomState::AcceptingQuestions
            } else {
                RoomState::AcceptingPlayers
            },
            ..self
        }
    }

    /// The room after player `p` has asked a question.
    pub open spec fn asked(self, p: PlayerId) -> RoomView {
        let question = QuestionView {
            id: self.questions.len() as usize,
            player_id: p,
            content: Seq::empty(),
        };
        let questions = self.questions.push(question);
        if questions.len() == self.rounds_limit {
            RoomView {
                questions,
                state: RoomState::Playing,
                curr_round: Some(RoundView::fresh(0, questions[0])),
                ..self
            }
        } else {
            RoomView { questions, ..self }
        }
    }

    /// The room after player `p` has answered in the round under way.
    pub open spec fn answered(self, p: PlayerId) -> RoomView {
        let round = self.curr_round->0;
        let answers = round.answers.insert(
            p,
            AnswerView { id: p, player_id: p, content: Seq::empty() },
        );
        let filled = RoundView { answers, ..round };
        RoomView {
            curr_round: Some(
                if self.all_answered(filled) {
                    RoundView { state: RoundState::Polling, ..filled }
                } else {
                    filled
                },
            ),
            ..self
        }
    }

    /// The room after player `p` has voted in the round under way. The vote
    /// goes to the answer of the lowest-numbered player who gave one.
    pub open spec fn voted(self, p: PlayerId) -> RoomView {
        let round = self.curr_round->0;
        let choice = round.answer_from(0, self.players_limit as nat) as usize;
        let polled = RoundView { polls: round.polls.insert(p, choice), ..round };
        if !self.all_voted(polled) {
            RoomView { curr_round: Some(polled), ..self }
        } else {
            let past_rounds = self.past_rounds.push(polled);
            if past_rounds.len() == self.rounds_limit {
                RoomView { past_rounds, curr_round: None, state: RoomState::Dead, ..self }
            } else {
                RoomView {
                    past_rounds,
                    curr_round: Some(
                        RoundView::fresh(
                            (round.round_num + 1) as usize,
                            self.questions[round.round_num + 1],
                        ),
                    ),
                    ..self
                }
            }
        }
    }

    /// The room after player `p` has left.
    pub open spec fn left(self, p: PlayerId) -> RoomView {
        RoomView { players: self.players.remove(self.seat(p)), ..self }
    }

    /// The room after `request` from `sender`. `token` is the credential
    /// that a player who joins is given.
    pub open spec fn next(self, sender: Sender, request: Request, token: PlayerToken) -> RoomView {
        match request {
            Request::GetRoomState => self,
            Request::JoinRoom => if self.state == RoomState::AcceptingPlayers && self.players.len()
                < self.players_limit {
                self.joined(token)
            } else {
                self
            },
            Request::AddQuestion => if self.state == RoomState::AcceptingQuestions
                && self.is_member(sender) && self.questions.len() < self.rounds_limit {
                self.asked(sender->Player_0)
            } else {
                self
            },
            Request::AddAnswer => if self.state == RoomState::Playing && self.curr_round->0.state
                == RoundState::AcceptingAnswers && self.is_member(sender)
                && !self.curr_round->0.answers.contains_key(sender->Player_0) {
                self.answered(sender->Player_0)
            } else {
                self
            },
            Request::SelectAnswer => if self.state == RoomState::Playing
                && self.curr_round->0.state == RoundState::Polling && self.is_member(sender)
                && !self.curr_round->0.polls.contains_key(sender->Player_0) {
                self.voted(sender->Player_0)
            } else {
                self
            },
            Request::Disconnecting => if self.state != RoomState::Dead && self.is_member(sender) {
                self.left(sender->Player_0)
            } else {
                self
            },
        }
    }

    /// What the room has to say to `request` from `sender`.
    pub open spec fn reply(self, sender: Sender, request: Request) -> Command {
        match request {
            Request::GetRoomState => Command::Response(addressed(sender, Response::RoomState)),
            Request::JoinRoom => if self.state != RoomState::AcceptingPlayers {
                Command::Skip
            } else if self.players.len() < self.players_limit {
                Command::Response(Response::NewPlayerJoined)
            } else {
                Command::Response(
                    addressed(sender, Response::Error(ErrResponse::QuestionLimitReached)),
                )
            },
            Request::AddQuestion => if self.state != RoomState::AcceptingQuestions
                || !self.is_member(sender) {
                Command::Skip
            } else if self.questions.len() < self.rounds_limit {
                Command::Response(Response::QuestionAdded)
            } else {
                Command::Response(
                    addressed(sender, Response::Error(ErrResponse::QuestionLimitReached)),
                )
            },
            Request::AddAnswer => if self.state != RoomState::Playing || self.curr_round->0.state
                != RoundState::AcceptingAnswers || !self.is_member(sender) {
                Command::Skip
            } else if self.curr_round->0.answers.contains_key(sender->Player_0) {
                Command::Response(
                    addressed(sender, Response::Error(ErrResponse::AnswerAlreadySent)),
                )
            } else if self.answered(sender->Player_0).curr_round->0.state == RoundState::Polling {
                Command::Response(Response::NewRound)
            } else {
                Command::Skip
            },
            Request::SelectAnswer => if self.state != RoomState::Playing
                || self.curr_round->0.state != RoundState::Polling || !self.is_member(sender) {
                Command::Skip
            } else if self.curr_round->0.polls.contains_key(sender->Player_0) {
                Command::Response(
                    addressed(sender, Response::Error(ErrResponse::AnswerAlreadySelected)),
                )
            } else {
                let after = self.voted(sender->Player_0);
                if after.state == RoomState::Dead {
                    Command::Response(Response::GameScore)
                } else if after.past_rounds.len() > self.past_rounds.len() {
                    Command::Response(Response::NewRound)
                } else {
                    Command::Skip
                }
            },
            Request::Disconnecting => if self.state != RoomState::Dead && self.is_member(sender) {
                Command::Response(Response::PlayerDisconnected)
            } else {
                Command::Skip
            },
        }
    }
}


/// Whether no two players of `s` hold the same number.
pub open spec fn distinct_ids(s: Seq<PlayerView>) -> bool {
    forall|i: int, j: int|
        0 <= i < s.len() && 0 <= j < s.len() && i != j ==> (#[trigger] s[i]).id != (
        #[trigger] s[j]).id
}

/// Whether one of the players of `s` holds the number `k`.
pub open spec fn holds_id(s: Seq<PlayerView>, k: nat) -> bool {
    exists|i: int| 0 <= i < s.len() && #[trigger] s[i].id == k
}

/// Players with distinct numbers that hold every number below `n` are at
/// least `n`.
proof fn lemma_seats_taken(s: Seq<PlayerView>, n: nat)
    requires
        distinct_ids(s),
        forall|k: nat| k < n ==> #[trigger] holds_id(s, k),
    ensures
        s.len() >= n,
    decreases n,
{
    if n > 0 {
        let top = (n - 1) as nat;
        assert(holds_id(s, top));
        let i = choose|i: int| 0 <= i < s.len() && #[trigger] s[i].id == top;
        let t = s.remove(i);
        assert forall|k: nat| k < top implies #[trigger] holds_id(t, k) by {
            assert(holds_id(s, k));
            let j = choose|j: int| 0 <= j < s.len() && #[trigger] s[j].id == k;
            if j < i {
                assert(t[j].id == k);
            } else {
                assert(j != i);
                assert(t[j - 1].id == k);
            }
        }
        assert(distinct_ids(t)) by {
            assert forall|a: int, b: int|
                0 <= a < t.len() && 0 <= b < t.len() && a != b implies (#[trigger] t[a]).id != (
            #[trigger] t[b]).id by {
                let a0 = if a < i {
                    a
                } else {
                    a + 1
                };
                let b0 = if b < i {
                    b
                } else {
                    b + 1
                };
                assert(t[a] == s[a0]);
                assert(t[b] == s[b0]);
            }
        }
        lemma_seats_taken(t, top);
    }
}

impl RoomView {
    /// `free_from(k)` lies between `k` and the limit, every number from `k`
    /// up to it is taken, and it is free unless it is the limit.
    pub proof fn lemma_free_from(self, k: nat)
        requires
            k <= self.players_limit,
        ensures
            k <= self.free_from(k) <= self.players_limit,
            self.free_from(k) < self.players_limit ==> !self.has_player(
                self.free_from(k) as usize,
            ),
            forall|j: usize| k <= j < self.free_from(k) ==> #[trigger] self.has_player(j),
        decreases self.players_limit - k,
    {
        if k < self.players_limit && self.has_player(k as usize) {
            self.lemma_free_from(k + 1);
        }
    }

    /// A room that is not full has a free number below its limit.
    pub proof fn lemma_free_seat(self)
        requires
            self.wf(),
            self.players.len() < self.players_limit,
        ensures
            self.free_from(0) < self.players_limit,
            !self.has_player(self.free_from(0) as usize),
    {
        self.lemma_free_from(0);
        if self.free_from(0) == self.players_limit {
            assert forall|k: nat| k < self.players_limit as nat implies #[trigger] holds_id(
                self.players,
                k,
            ) by {
                assert(self.has_player(k as usize));
                let i = self.seat(k as usize);
                assert(self.players[i].id == k);
            }
            assert(distinct_ids(self.players));
            lemma_seats_taken(self.players, self.players_limit as nat);
        }
    }

    /// A new room keeps the invariant.
    pub proof fn lemma_initial_wf(id: Seq<u8>, pass: i64, players_limit: usize, rounds_limit: usize)
        requires
            id.len() == 12,
        ensures
            RoomView::initial(id, pass, players_limit, rounds_limit).wf(),
    {
    }

    proof fn lemma_joined_wf(self, token: PlayerToken)
        requires
            self.wf(),
            self.state == RoomState::AcceptingPlayers,
            self.players.len() < self.players_limit,
        ensures
            self.joined(token).wf(),
    {
        self.lemma_free_seat();
        let after = self.joined(token);
        let n = self.players.len() as int;
        assert forall|i: int, j: int|
            0 <= i < after.players.len() && 0 <= j < after.players.len() && i != j implies (
        #[trigger] after.players[i]).id != (#[trigger] after.players[j]).id by {
            if i < n && j < n {
                assert(after.players[i] == self.players[i]);
                assert(after.players[j] == self.players[j]);
            } else if i < n {
                assert(after.players[i] == self.players[i]);
                assert(self.has_player(self.players[i].id));
            } else {
                assert(after.players[j] == self.players[j]);
                assert(self.has_player(self.players[j].id));
            }
        }
        assert forall|i: int| 0 <= i < after.players.len() implies (
        #[trigger] after.players[i]).id < after.players_limit by {
            if i < n {
                assert(after.players[i] == self.players[i]);
            }
        }
    }

    proof fn lemma_asked_wf(self, p: PlayerId)
        requires
            self.wf(),
            self.state == RoomState::AcceptingQuestions,
            self.questions.len() < self.rounds_limit,
        ensures
            self.asked(p).wf(),
    {
        let after = self.asked(p);
        let n = self.questions.len() as int;
        assert forall|i: int| 0 <= i < after.questions.len() implies (
        #[trigger] after.questions[i]).id == i by {
            if i < n {
                assert(after.questions[i] == self.questions[i]);
            }
        }
    }

    proof fn lemma_answered_wf(self, p: PlayerId)
        requires
            self.wf(),
            self.state == RoomState::Playing,
            self.curr_round->0.state == RoundState::AcceptingAnswers,
            self.has_player(p),
        ensures
            self.answered(p).wf(),
    {
        let i = self.seat(p);
        assert(self.players[i].id == p);
    }

    /// In a round that is polling with a player in the room, an answer is
    /// recorded, and `answer_from(0, ..)` is the number of one.
    pub proof fn lemma_answer_from(self, k: nat)
        requires
            self.wf(),
            self.state == RoomState::Playing,
            k <= self.players_limit,
        ensures
            k <= self.curr_round->0.answer_from(k, self.players_limit as nat) <= self.players_limit,
            self.curr_round->0.answer_from(k, self.players_limit as nat) < self.players_limit
                ==> self.curr_round->0.answers.contains_key(
                self.curr_round->0.answer_from(k, self.players_limit as nat) as usize,
            ),
            forall|j: usize|
                k <= j < self.curr_round->0.answer_from(k, self.players_limit as nat)
                    ==> !#[trigger] self.curr_round->0.answers.contains_key(j),
        decreases self.players_limit - k,
    {
        if k < self.players_limit && !self.curr_round->0.answers.contains_key(k as usize) {
            self.lemma_answer_from(k + 1);
        }
    }

    proof fn lemma_voted_wf(self, p: PlayerId)
        requires
            self.wf(),
            self.state == RoomState::Playing,
            self.curr_round->0.state == RoundState::Polling,
            self.has_player(p),
        ensures
            self.voted(p).wf(),
    {
        let round = self.curr_round->0;
        let i = self.seat(p);
        assert(self.players[i].id == p);
        assert(round.answers.contains_key(p));
        self.lemma_answer_from(0);
        let choice = round.answer_from(0, self.players_limit as nat);
        assert(choice < self.players_limit);
        let polled = RoundView { polls: round.polls.insert(p, choice as usize), ..round };
        let after = self.voted(p);
        if self.all_voted(polled) {
            let past = self.past_rounds.push(polled);
            assert forall|i: int| 0 <= i < past.len() implies (#[trigger] past[i]).round_num
                == i by {
                if i < self.past_rounds.len() {
                    assert(past[i] == self.past_rounds[i]);
                }
            }
        }
    }

    proof fn lemma_left_wf(self, p: PlayerId)
        requires
            self.wf(),
            self.state != RoomState::Dead,
            self.has_player(p),
        ensures
            self.left(p).wf(),
    {
        let at = self.seat(p);
        let after = self.left(p);
        assert forall|i: int| 0 <= i < after.players.len() implies (
        #[trigger] after.players[i]).id < after.players_limit && exists|j: int|
            0 <= j < self.players.len() && after.players[i] == self.players[j] by {
            let j = if i < at {
                i
            } else {
                i + 1
            };
            assert(after.players[i] == self.players[j]);
        }
        assert forall|a: int, b: int|
            0 <= a < after.players.len() && 0 <= b < after.players.len() && a != b implies (
        #[trigger] after.players[a]).id != (#[trigger] after.players[b]).id by {
            let a0 = if a < at {
                a
            } else {
                a + 1
            };
            let b0 = if b < at {
                b
            } else {
                b + 1
            };
            assert(after.players[a] == self.players[a0]);
            assert(after.players[b] == self.players[b0]);
        }
        if self.state == RoomState::Playing && self.curr_round->0.state == RoundState::Polling {
            let round = self.curr_round->0;
            assert forall|i: int| 0 <= i < after.players.len() implies round.answers.contains_key(
                #[trigger] after.players[i].id,
            ) by {
                let j = if i < at {
                    i
                } else {
                    i + 1
                };
                assert(after.players[i] == self.players[j]);
            }
        }
    }

    /// Every request leaves the invariant of the room in place: at any time
    /// the players are at most `players_limit`, and the rounds played and
    /// under way at most `rounds_limit`.
    pub proof fn lemma_next_wf(self, sender: Sender, request: Request, token: PlayerToken)
        requires
            self.wf(),
        ensures
            self.next(sender, request, token).wf(),
    {
        let after = self.next(sender, request, token);
        if after != self {
            match request {
                Request::GetRoomState => {},
                Request::JoinRoom => {
                    self.lemma_joined_wf(token);
                },
                Request::AddQuestion => {
                    self.lemma_asked_wf(sender->Player_0);
                },
                Request::AddAnswer => {
                    self.lemma_answered_wf(sender->Player_0);
                },
                Request::SelectAnswer => {
                    self.lemma_voted_wf(sender->Player_0);
                },
                Request::Disconnecting => {
                    self.lemma_left_wf(sender->Player_0);
                },
            }
        }
    }

    /// What the invariant says of the counts: the players in the room are
    /// at most its limit, and the rounds played, with the one under way,
    /// at most the limit of rounds.
    pub proof fn lemma_wf_bounds(self)
        requires
            self.wf(),
        ensures
            0 <= self.current_players() <= self.players_limit,
            self.past_rounds.len() + (if self.curr_round is Some {
                1nat
            } else {
                0nat
            }) <= self.rounds_limit,
    {
    }

    /// In a round that is polling, whoever voted is a player who answered,
    /// and every vote names a recorded answer.
    pub proof fn lemma_polls_within_answers(self)
        requires
            self.wf(),
            self.curr_round is Some,
            self.curr_round->0.state == RoundState::Polling,
        ensures
            self.curr_round->0.polls.dom().subset_of(
                self.curr_round->0.answers.dom().union(Set::new(|p: PlayerId| self.has_player(p))),
            ),
            forall|voter: PlayerId| #[trigger]
                self.curr_round->0.polls.contains_key(voter)
                    ==> self.curr_round->0.answers.contains_key(self.curr_round->0.polls[voter]),
    {
    }

    /// A second answer from a player whose answer is recorded is refused,
    /// to that player alone, and changes nothing.
    pub proof fn lemma_second_answer_refused(self, p: PlayerId, token: PlayerToken)
        requires
            self.wf(),
            self.state == RoomState::Playing,
            self.curr_round->0.state == RoundState::AcceptingAnswers,
            self.has_player(p),
            self.curr_round->0.answers.contains_key(p),
        ensures
            self.reply(Sender::Player(p), Request::AddAnswer) == Command::Response(
                Response::Priv(p, Box::new(Response::Error(ErrResponse::AnswerAlreadySent))),
            ),
            self.next(Sender::Player(p), Request::AddAnswer, token) == self,
    {
    }

    /// No request takes points from a player: whoever is in the room after
    /// a request was in it before, with the same points, or has just
    /// joined, with none.
    pub proof fn lemma_points_are_kept(
        self,
        sender: Sender,
        request: Request,
        token: PlayerToken,
        i: int,
    )
        requires
            self.wf(),
            0 <= i < self.next(sender, request, token).players.len(),
        ensures
            ({
                let player = self.next(sender, request, token).players[i];
                ||| exists|j: int| 0 <= j < self.players.len() && self.players[j] == player
                ||| request == Request::JoinRoom && i == self.players.len() && player.points == 0
                    && player.token == token
            }),
    {
        let after = self.next(sender, request, token);
        let player = after.players[i];
        if after.players == self.players {
            assert(self.players[i] == player);
        } else if request == Request::Disconnecting {
            let at = self.seat(sender->Player_0);
            let j = if i < at {
                i
            } else {
                i + 1
            };
            assert(self.players[j] == player);
        } else if request == Request::JoinRoom {
            if i < self.players.len() {
                assert(self.players[i] == player);
            }
        }
    }

    /// A dead room stays as it is, whatever it is asked.
    pub proof fn lemma_dead_is_final(self, sender: Sender, request: Request, token: PlayerToken)
        requires
            self.state == RoomState::Dead,
        ensures
            self.next(sender, request, token) == self,
    {
    }

    /// A room dies in one way only: with the vote that ends its last
    /// round. It then has played `rounds_limit` rounds and says
    /// `GameScore`.
    pub proof fn lemma_game_ends_with_score(
        self,
        sender: Sender,
        request: Request,
        token: PlayerToken,
    )
        requires
            self.wf(),
            self.state != RoomState::Dead,
            self.next(sender, request, token).state == RoomState::Dead,
        ensures
            request == Request::SelectAnswer,
            self.past_rounds.len() + 1 == self.rounds_limit,
            self.next(sender, request, token).past_rounds.len() == self.rounds_limit,
            self.reply(sender, request) == Command::Response(Response::GameScore),
    {
    }

    /// The vote that ends a round before the last opens the next one, on
    /// the next question, and says `NewRound`.
    pub proof fn lemma_round_follows_round(self, p: PlayerId, token: PlayerToken)
        requires
            self.wf(),
            self.state == RoomState::Playing,
            self.curr_round->0.state == RoundState::Polling,
            self.has_player(p),
            !self.curr_round->0.polls.contains_key(p),
            self.next(Sender::Player(p), Request::SelectAnswer, token).past_rounds.len()
                > self.past_rounds.len(),
            self.past_rounds.len() + 1 < self.rounds_limit,
        ensures
            self.reply(Sender::Player(p), Request::SelectAnswer) == Command::Response(
                Response::NewRound,
            ),
            self.next(Sender::Player(p), Request::SelectAnswer, token).curr_round == Some(
                RoundView::fresh(
                    (self.past_rounds.len() + 1) as usize,
                    self.questions[self.past_rounds.len() as int + 1],
                ),
            ),
    {
    }
}


impl Question {
    /// A copy of this question.
    pub fn duplicate(&self) -> (q: Question)
        ensures
            q@ == self@,
    {
        Question { id: self.id, player_id: self.player_id, content: self.content.clone() }
    }
}

impl Round {
    /// A round without answers or votes.
    fn fresh(round_num: usize, question: Question) -> (round: Round)
        ensures
            round@ == RoundView::fresh(round_num, question@),
    {
        let round = Round {
            round_num,
            state: RoundState::AcceptingAnswers,
            question,
            answers: HashMap::new(),
            polls: HashMap::new(),
        };
        assert(round@.answers =~= Map::<PlayerId, AnswerView>::empty());
        assert(round@.polls =~= Map::<PlayerId, AnswerId>::empty());
        round
    }

    /// The lowest player number below `limit` whose answer is recorded.
    fn lowest_answer(&self, limit: usize) -> (k: usize)
        ensures
            k == self@.answer_from(0, limit as nat),
    {
        let mut k: usize = 0;
        while k < limit
            invariant
                k <= limit,
                self@.answer_from(0, limit as nat) == self@.answer_from(k as nat, limit as nat),
            decreases limit - k,
        {
            if self.answers.contains_key(&k) {
                return k;
            }
            k = k + 1;
        }
        k
    }
}

impl Room {
    /// A room without players, questions or rounds, waiting for players.
    pub fn new(id: RoomId, password: i64, players_limit: usize, rounds_limit: usize) -> (room:
        Self)
        ensures
            room@ == RoomView::initial(id@, password, players_limit, rounds_limit),
            room@.wf(),
    {
        let room = Self {
            id,
            players_limit,
            rounds_limit,
            pass: password,
            players: Vec::new(),
            questions: Vec::new(),
            past_rounds: Vec::new(),
            curr_round: None,
            state: RoomState::AcceptingPlayers,
        };
        assert(room@.players =~= Seq::<PlayerView>::empty());
        assert(room@.questions =~= Seq::<QuestionView>::empty());
        assert(room@.past_rounds =~= Seq::<RoundView>::empty());
        room
    }

    /// How many players are in the room.
    pub fn current_players(&self) -> (n: usize)
        ensures
            n == self@.current_players(),
    {
        self.players.len()
    }

    /// Where the player numbered `p` stands in `players`, if in the room.
    fn seat_of(&self, p: PlayerId) -> (r: Option<usize>)
        ensures
            r is Some == self@.has_player(p),
            r matches Some(i) ==> i < self.players.len() && self.players[i as int].id == p,
    {
        let mut i: usize = 0;
        while i < self.players.len()
            invariant
                i <= self.players.len(),
                forall|j: int| 0 <= j < i ==> self@.players[j].id != p,
            decreases self.players.len() - i,
        {
            if self.players[i].id == p {
                assert(self@.players[i as int].id == p);
                return Some(i);
            }
            i = i + 1;
        }
        None
    }

    /// The player that `sender` is, if one of the room.
    fn member(&self, sender: Sender) -> (r: Option<PlayerId>)
        ensures
            r is Some == self@.is_member(sender),
            r matches Some(p) ==> sender == Sender::Player(p),
    {
        match sender {
            Sender::Global => None,
            Sender::Player(p) => match self.seat_of(p) {
                Some(_) => Some(p),
                None => None,
            },
        }
    }

    /// The lowest number below the limit that no player holds.
    fn free_seat(&self) -> (k: usize)
        ensures
            k == self@.free_from(0),
    {
        let mut k: usize = 0;
        while k < self.players_limit
            invariant
                k <= self.players_limit,
                self@.free_from(0) == self@.free_from(k as nat),
            decreases self.players_limit - k,
        {
            if self.seat_of(k).is_none() {
                return k;
            }
            k = k + 1;
        }
        k
    }

    /// Whether every player has answered in `round`.
    fn everyone_answered(&self, round: &Round) -> (b: bool)
        ensures
            b == self@.all_answered(round@),
    {
        let mut i: usize = 0;
        while i < self.players.len()
            invariant
                i <= self.players.len(),
                forall|j: int| 0 <= j < i ==> round@.answers.contains_key(self@.players[j].id),
            decreases self.players.len() - i,
        {
            if !round.answers.contains_key(&self.players[i].id) {
                assert(!round@.answers.contains_key(self@.players[i as int].id));
                return false;
            }
            i = i + 1;
        }
        true
    }

    /// Whether every player has voted in `round`.
    fn everyone_voted(&self, round: &Round) -> (b: bool)
        ensures
            b == self@.all_voted(round@),
    {
        let mut i: usize = 0;
        while i < self.players.len()
            invariant
                i <= self.players.len(),
                forall|j: int| 0 <= j < i ==> round@.polls.contains_key(self@.players[j].id),
            decreases self.players.len() - i,
        {
            if !round.polls.contains_key(&self.players[i].id) {
                assert(!round@.polls.contains_key(self@.players[i as int].id));
                return false;
            }
            i = i + 1;
        }
        true
    }

    /// Seats a new player.
    fn join(&mut self, token: PlayerToken)
        requires
            old(self)@.wf(),
            old(self).state == RoomState::AcceptingPlayers,
            old(self).players.len() < old(self).players_limit,
        ensures
            final(self)@ == old(self)@.joined(token),
    {
        let id = self.free_seat();
        self.players.push(Player { id, token, name: String::new(), points: 0 });
        if self.players.len() == self.players_limit {
            self.state = RoomState::AcceptingQuestions;
        }
        assert(self@.players =~= old(self)@.joined(token).players);
    }

    /// Records a question of player `p`, and opens the first round when it
    /// is the last one awaited.
    fn add_question(&mut self, p: PlayerId)
        requires
            old(self)@.wf(),
            old(self).state == RoomState::AcceptingQuestions,
            old(self).questions.len() < old(self).rounds_limit,
        ensures
            final(self)@ == old(self)@.asked(p),
    {
        let id = self.questions.len();
        self.questions.push(Question { id, player_id: p, content: String::new() });
        assert(self@.questions =~= old(self)@.asked(p).questions);
        if self.questions.len() == self.rounds_limit {
            let first = self.questions[0].duplicate();
            self.curr_round = Some(Round::fresh(0, first));
            self.state = RoomState::Playing;
        }
    }

    /// Records the answer of player `p`, and opens the poll when it is the
    /// last one awaited. Says whether it did.
    fn add_answer(&mut self, p: PlayerId) -> (polling: bool)
        requires
            old(self)@.wf(),
            old(self).state == RoomState::Playing,
            old(self)@.curr_round->0.state == RoundState::AcceptingAnswers,
        ensures
            final(self)@ == old(self)@.answered(p),
            polling == (final(self)@.curr_round->0.state == RoundState::Polling),
    {
        let mut round = self.curr_round.take().unwrap();
        let ghost before = round@;
        round.answers.insert(p, Answer { id: p, player_id: p, content: String::new() });
        assert(round@.answers =~= before.answers.insert(
            p,
            AnswerView { id: p, player_id: p, content: Seq::empty() },
        ));
        let ghost filled = RoundView { answers: round@.answers, ..before };
        assert(round@ == filled);
        let polling = self.everyone_answered(&round);
        assert(self@.players == old(self)@.players);
        assert(polling == old(self)@.all_answered(filled));
        if polling {
            round.state = RoundState::Polling;
        }
        assert(round@ == old(self)@.answered(p).curr_round->0);
        self.curr_round = Some(round);
        assert(self@.curr_round == old(self)@.answered(p).curr_round);
        assert(self@.players == old(self)@.players);
        assert(self@.questions == old(self)@.questions);
        assert(self@.past_rounds == old(self)@.past_rounds);
        polling
    }

    /// Records the vote of player `p`, and ends the round when it is the
    /// last one awaited: the next round opens, or the game is over.
    fn select_answer(&mut self, p: PlayerId)
        requires
            old(self)@.wf(),
            old(self).state == RoomState::Playing,
        ensures
            final(self)@ == old(self)@.voted(p),
    {
        let mut round = self.curr_round.take().unwrap();
        let ghost before = round@;
        let choice = round.lowest_answer(self.players_limit);
        round.polls.insert(p, choice);
        let ghost polled = RoundView { polls: before.polls.insert(p, choice), ..before };
        assert(round@ == polled);
        let done = self.everyone_voted(&round);
        assert(self@.players == old(self)@.players);
        assert(done == old(self)@.all_voted(polled));
        if !done {
            self.curr_round = Some(round);
        } else {
            let next = round.round_num + 1;
            self.past_rounds.push(round);
            assert(self@.past_rounds =~= old(self)@.past_rounds.push(polled));
            if self.past_rounds.len() == self.rounds_limit {
                self.state = RoomState::Dead;
            } else {
                let question = self.questions[next].duplicate();
                self.curr_round = Some(Round::fresh(next, question));
            }
        }
    }

    /// Takes the player at `seat` out of the room.
    fn disconnect(&mut self, p: PlayerId, seat: usize)
        requires
            old(self)@.wf(),
            seat < old(self).players.len(),
            old(self).players[seat as int].id == p,
        ensures
            final(self)@ == old(self)@.left(p),
    {
        proof {
            assert(self@.players[seat as int].id == p);
            assert(self@.has_player(p));
            let at = self@.seat(p);
            assert(self@.players[at].id == p);
            assert(at == seat);
        }
        self.players.remove(seat);
        assert(self@.players =~= old(self)@.left(p).players);
    }

    /// Carries out `request` from `sender`: moves the room on and says what
    /// the runtime is to publish. `token` is the credential that a player
    /// who joins is given.
    pub fn process(&mut self, sender: Sender, request: Request, token: PlayerToken) -> (command:
        Command)
        requires
            old(self)@.wf(),
        ensures
            final(self)@ == old(self)@.next(sender, request, token),
            command == old(self)@.reply(sender, request),
            final(self)@.wf(),
    {
        proof {
            self@.lemma_next_wf(sender, request, token);
        }
        match request {
            Request::GetRoomState => Command::Response(address(sender, Response::RoomState)),
            Request::JoinRoom => self.on_join(sender, token),
            Request::AddQuestion => self.on_question(sender),
            Request::AddAnswer => self.on_answer(sender),
            Request::SelectAnswer => self.on_vote(sender),
            Request::Disconnecting => self.on_leave(sender),
        }
    }

    fn on_join(&mut self, sender: Sender, token: PlayerToken) -> (command: Command)
        requires
            old(self)@.wf(),
        ensures
            final(self)@ == old(self)@.next(sender, Request::JoinRoom, token),
            command == old(self)@.reply(sender, Request::JoinRoom),
    {
        match self.state {
            RoomState::AcceptingPlayers => {
                if self.players.len() < self.players_limit {
                    self.join(token);
                    Command::Response(Response::NewPlayerJoined)
                } else {
                    Command::Response(
                        address(sender, Response::Error(ErrResponse::QuestionLimitReached)),
                    )
                }
            },
            _ => Command::Skip,
        }
    }

    fn on_question(&mut self, sender: Sender) -> (command: Command)
        requires
            old(self)@.wf(),
        ensures
            forall|token: PlayerToken|
                final(self)@ == #[trigger] old(self)@.next(sender, Request::AddQuestion, token),
            command == old(self)@.reply(sender, Request::AddQuestion),
    {
        match (self.state, self.member(sender)) {
            (RoomState::AcceptingQuestions, Some(p)) => {
                if self.questions.len() < self.rounds_limit {
                    self.add_question(p);
                    Command::Response(Response::QuestionAdded)
                } else {
                    Command::Response(
                        address(sender, Response::Error(ErrResponse::QuestionLimitReached)),
                    )
                }
            },
            _ => Command::Skip,
        }
    }

    /// The phase of the round under way, if one is.
    fn round_state(&self) -> (r: Option<RoundState>)
        ensures
            r is Some == self@.curr_round is Some,
            r matches Some(state) ==> state == self@.curr_round->0.state,
    {
        match &self.curr_round {
            Some(round) => Some(round.state),
            None => None,
        }
    }

    /// Whether player `p` has answered in the round under way.
    fn has_answered(&self, p: PlayerId) -> (b: bool)
        requires
            self@.curr_round is Some,
        ensures
            b == self@.curr_round->0.answers.contains_key(p),
    {
        match &self.curr_round {
            Some(round) => round.answers.contains_key(&p),
            None => false,
        }
    }

    /// Whether player `p` has voted in the round under way.
    fn has_voted(&self, p: PlayerId) -> (b: bool)
        requires
            self@.curr_round is Some,
        ensures
            b == self@.curr_round->0.polls.contains_key(p),
    {
        match &self.curr_round {
            Some(round) => round.polls.contains_key(&p),
            None => false,
        }
    }

    fn on_answer(&mut self, sender: Sender) -> (command: Command)
        requires
            old(self)@.wf(),
        ensures
            forall|token: PlayerToken|
                final(self)@ == #[trigger] old(self)@.next(sender, Request::AddAnswer, token),
            command == old(self)@.reply(sender, Request::AddAnswer),
    {
        match (self.state, self.round_state(), self.member(sender)) {
            (RoomState::Playing, Some(RoundState::AcceptingAnswers), Some(p)) => {
                if self.has_answered(p) {
                    Command::Response(
                        address(sender, Response::Error(ErrResponse::AnswerAlreadySent)),
                    )
                } else if self.add_answer(p) {
                    Command::Response(Response::NewRound)
                } else {
                    Command::Skip
                }
            },
            _ => Command::Skip,
        }
    }

    fn on_vote(&mut self, sender: Sender) -> (command: Command)
        requires
            old(self)@.wf(),
        ensures
            forall|token: PlayerToken|
                final(self)@ == #[trigger] old(self)@.next(sender, Request::SelectAnswer, token),
            command == old(self)@.reply(sender, Request::SelectAnswer),
    {
        match (self.state, self.round_state(), self.member(sender)) {
            (RoomState::Playing, Some(RoundState::Polling), Some(p)) => {
                if self.has_voted(p) {
                    Command::Response(
                        address(sender, Response::Error(ErrResponse::AnswerAlreadySelected)),
                    )
                } else {
                    let played = self.past_rounds.len();
                    self.select_answer(p);
                    match self.state {
                        RoomState::Dead => Command::Response(Response::GameScore),
                        _ => if self.past_rounds.len() > played {
                            Command::Response(Response::NewRound)
                        } else {
                            Command::Skip
                        },
                    }
                }
            },
            _ => Command::Skip,
        }
    }

    fn on_leave(&mut self, sender: Sender) -> (command: Command)
        requires
            old(self)@.wf(),
        ensures
            forall|token: PlayerToken|
                final(self)@ == #[trigger] old(self)@.next(sender, Request::Disconnecting, token),
            command == old(self)@.reply(sender, Request::Disconnecting),
    {
        match (self.state, sender) {
            (RoomState::Dead, _) => Command::Skip,
            (_, Sender::Player(p)) => match self.seat_of(p) {
                Some(seat) => {
                    self.disconnect(p, seat);
                    Command::Response(Response::PlayerDisconnected)
                },
                None => Command::Skip,
            },
            _ => Command::Skip,
        }
    }
}

/// Addresses `r` to the one who asked.
pub fn address(sender: Sender, r: Response) -> (out: Response)
    ensures
        out == addressed(sender, r),
{
    match sender {
        Sender::Global => r,
        Sender::Player(p) => Response::Priv(p, Box::new(r)),
    }
}

} // verus!
