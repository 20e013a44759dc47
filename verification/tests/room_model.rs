use eurus::message::{ErrResponse, Request, Response};
use eurus::room::model::{address, Room, RoomState, RoundState, Sender};
use eurus::service::Command;

const ID: [u8; 12] = [1, 2, 3, 4, 5, 6, 7, 8, 9, 10, 11, 12];

fn refused(p: usize, e: ErrResponse) -> Command {
    Command::Response(Response::Priv(p, Box::new(Response::Error(e))))
}

fn bounds_hold(room: &Room) {
    assert!(room.current_players() <= room.players_limit);
    let under_way = if room.curr_round.is_some() { 1 } else { 0 };
    assert!(room.past_rounds.len() + under_way <= room.rounds_limit);
    assert_eq!(room.curr_round.is_some(), room.state == RoomState::Playing);
    if let Some(round) = &room.curr_round {
        for (voter, choice) in &round.polls {
            assert!(round.answers.contains_key(choice));
            assert!(
                round.answers.contains_key(voter)
                    || room.players.iter().any(|p| p.id == *voter)
            );
        }
        if round.state == RoundState::AcceptingAnswers {
            assert!(round.polls.is_empty());
        }
    }
}

fn step(room: &mut Room, sender: Sender, request: Request) -> Command {
    let command = room.process(sender, request, 77);
    bounds_hold(room);
    command
}

fn playing(players: usize, rounds: usize) -> Room {
    let mut room = Room::new(ID, 5, players, rounds);
    for p in 0..players {
        assert_eq!(
            step(&mut room, Sender::Player(p), Request::JoinRoom),
            Command::Response(Response::NewPlayerJoined)
        );
    }
    for _ in 0..rounds {
        assert_eq!(
            step(&mut room, Sender::Player(0), Request::AddQuestion),
            Command::Response(Response::QuestionAdded)
        );
    }
    assert_eq!(room.state, RoomState::Playing);
    room
}

#[test]
fn a_new_room_waits_for_players() {
    let room = Room::new(ID, -9, 4, 3);
    assert_eq!(room.id, ID);
    assert_eq!(room.pass, -9);
    assert_eq!(room.players_limit, 4);
    assert_eq!(room.rounds_limit, 3);
    assert!(room.players.is_empty());
    assert!(room.questions.is_empty());
    assert!(room.past_rounds.is_empty());
    assert!(room.curr_round.is_none());
    assert_eq!(room.state, RoomState::AcceptingPlayers);
    assert_eq!(room.current_players(), 0);
}

#[test]
fn a_player_who_joins_is_announced_to_the_room() {
    let mut room = Room::new(ID, 0, 2, 3);
    let command = room.process(Sender::Player(0), Request::JoinRoom, 4242);
    assert_eq!(command, Command::Response(Response::NewPlayerJoined));
    assert_eq!(room.current_players(), 1);
    assert_eq!(room.players[0].id, 0);
    assert_eq!(room.players[0].token, 4242);
    assert_eq!(room.players[0].name, "");
    assert_eq!(room.players[0].points, 0);
    assert_eq!(room.state, RoomState::AcceptingPlayers);
}

#[test]
fn the_room_takes_questions_once_it_is_full() {
    let mut room = Room::new(ID, 0, 2, 3);
    step(&mut room, Sender::Global, Request::JoinRoom);
    assert_eq!(room.state, RoomState::AcceptingPlayers);
    step(&mut room, Sender::Player(1), Request::JoinRoom);
    assert_eq!(room.state, RoomState::AcceptingQuestions);
    assert_eq!(room.players[0].id, 0);
    assert_eq!(room.players[1].id, 1);
    assert_eq!(step(&mut room, Sender::Player(1), Request::JoinRoom), Command::Skip);
    assert_eq!(room.current_players(), 2);
}

#[test]
fn a_room_without_seats_refuses_whoever_wants_in() {
    let mut room = Room::new(ID, 0, 0, 3);
    assert_eq!(
        step(&mut room, Sender::Player(0), Request::JoinRoom),
        refused(0, ErrResponse::QuestionLimitReached)
    );
    assert_eq!(
        step(&mut room, Sender::Global, Request::JoinRoom),
        Command::Response(Response::Error(ErrResponse::QuestionLimitReached))
    );
    assert_eq!(room.current_players(), 0);
    assert_eq!(room.state, RoomState::AcceptingPlayers);
}

#[test]
fn a_seat_that_was_left_is_given_out_again() {
    let mut room = Room::new(ID, 0, 3, 1);
    step(&mut room, Sender::Global, Request::JoinRoom);
    step(&mut room, Sender::Global, Request::JoinRoom);
    assert_eq!(
        step(&mut room, Sender::Player(0), Request::Disconnecting),
        Command::Response(Response::PlayerDisconnected)
    );
    assert_eq!(room.current_players(), 1);
    assert_eq!(room.players[0].id, 1);
    step(&mut room, Sender::Global, Request::JoinRoom);
    assert_eq!(room.players[1].id, 0);
    step(&mut room, Sender::Global, Request::JoinRoom);
    assert_eq!(room.players[2].id, 2);
    assert_eq!(room.state, RoomState::AcceptingQuestions);
}

#[test]
fn only_players_of_the_room_are_heard() {
    let mut room = Room::new(ID, 0, 2, 2);
    step(&mut room, Sender::Global, Request::JoinRoom);
    step(&mut room, Sender::Global, Request::JoinRoom);
    for request in [Request::AddQuestion, Request::AddAnswer, Request::SelectAnswer, Request::Disconnecting] {
        assert_eq!(step(&mut room, Sender::Global, request), Command::Skip);
        assert_eq!(step(&mut room, Sender::Player(2), request), Command::Skip);
    }
    assert_eq!(room.current_players(), 2);
    assert!(room.questions.is_empty());
}

#[test]
fn questions_are_taken_until_there_is_one_for_each_round() {
    let mut room = Room::new(ID, 0, 1, 2);
    step(&mut room, Sender::Player(0), Request::JoinRoom);
    assert_eq!(step(&mut room, Sender::Player(0), Request::AddAnswer), Command::Skip);
    assert_eq!(
        step(&mut room, Sender::Player(0), Request::AddQuestion),
        Command::Response(Response::QuestionAdded)
    );
    assert_eq!(room.state, RoomState::AcceptingQuestions);
    assert_eq!(room.questions[0].id, 0);
    assert_eq!(room.questions[0].player_id, 0);
    assert_eq!(
        step(&mut room, Sender::Player(0), Request::AddQuestion),
        Command::Response(Response::QuestionAdded)
    );
    assert_eq!(room.state, RoomState::Playing);
    assert_eq!(room.questions.len(), 2);
    let round = room.curr_round.as_ref().unwrap();
    assert_eq!(round.round_num, 0);
    assert_eq!(round.state, RoundState::AcceptingAnswers);
    assert_eq!(round.question.id, 0);
    assert!(round.answers.is_empty());
    assert_eq!(step(&mut room, Sender::Player(0), Request::AddQuestion), Command::Skip);
}

#[test]
fn a_room_that_plays_no_round_takes_no_question() {
    let mut room = Room::new(ID, 0, 1, 0);
    step(&mut room, Sender::Player(0), Request::JoinRoom);
    assert_eq!(room.state, RoomState::AcceptingQuestions);
    assert_eq!(
        step(&mut room, Sender::Player(0), Request::AddQuestion),
        refused(0, ErrResponse::QuestionLimitReached)
    );
    assert!(room.questions.is_empty());
}

#[test]
fn the_poll_opens_when_everyone_has_answered() {
    let mut room = playing(2, 1);
    assert_eq!(step(&mut room, Sender::Player(1), Request::AddAnswer), Command::Skip);
    assert_eq!(step(&mut room, Sender::Player(0), Request::SelectAnswer), Command::Skip);
    assert_eq!(room.curr_round.as_ref().unwrap().state, RoundState::AcceptingAnswers);
    assert_eq!(
        step(&mut room, Sender::Player(0), Request::AddAnswer),
        Command::Response(Response::NewRound)
    );
    let round = room.curr_round.as_ref().unwrap();
    assert_eq!(round.state, RoundState::Polling);
    assert_eq!(round.answers.len(), 2);
    assert_eq!(round.answers[&1].player_id, 1);
    assert_eq!(round.answers[&1].id, 1);
    assert_eq!(step(&mut room, Sender::Player(0), Request::AddAnswer), Command::Skip);
}

#[test]
fn a_second_answer_is_refused_and_changes_nothing() {
    let mut room = playing(2, 1);
    assert_eq!(step(&mut room, Sender::Player(0), Request::AddAnswer), Command::Skip);
    let before = format!("{:?}", room.curr_round.as_ref().unwrap().answers);
    assert_eq!(
        step(&mut room, Sender::Player(0), Request::AddAnswer),
        refused(0, ErrResponse::AnswerAlreadySent)
    );
    assert_eq!(format!("{:?}", room.curr_round.as_ref().unwrap().answers), before);
    assert_eq!(room.curr_round.as_ref().unwrap().answers.len(), 1);
    assert_eq!(room.curr_round.as_ref().unwrap().state, RoundState::AcceptingAnswers);
}

#[test]
fn a_second_vote_is_refused_and_changes_nothing() {
    let mut room = playing(2, 2);
    step(&mut room, Sender::Player(0), Request::AddAnswer);
    step(&mut room, Sender::Player(1), Request::AddAnswer);
    assert_eq!(step(&mut room, Sender::Player(1), Request::SelectAnswer), Command::Skip);
    assert_eq!(
        step(&mut room, Sender::Player(1), Request::SelectAnswer),
        refused(1, ErrResponse::AnswerAlreadySelected)
    );
    let round = room.curr_round.as_ref().unwrap();
    assert_eq!(round.polls.len(), 1);
    assert_eq!(round.polls[&1], 0);
}

#[test]
fn a_game_plays_its_rounds_and_ends_with_the_score() {
    let rounds = 3;
    let mut room = playing(2, rounds);
    for n in 0..rounds {
        let round = room.curr_round.as_ref().unwrap();
        assert_eq!(round.round_num, n);
        assert_eq!(round.question.id, n);
        assert_eq!(room.past_rounds.len(), n);
        step(&mut room, Sender::Player(0), Request::AddAnswer);
        assert_eq!(
            step(&mut room, Sender::Player(1), Request::AddAnswer),
            Command::Response(Response::NewRound)
        );
        assert_eq!(step(&mut room, Sender::Player(0), Request::SelectAnswer), Command::Skip);
        let last = step(&mut room, Sender::Player(1), Request::SelectAnswer);
        if n + 1 < rounds {
            assert_eq!(last, Command::Response(Response::NewRound));
            assert_eq!(room.state, RoomState::Playing);
        } else {
            assert_eq!(last, Command::Response(Response::GameScore));
            assert_eq!(room.state, RoomState::Dead);
        }
    }
    assert_eq!(room.past_rounds.len(), rounds);
    assert!(room.curr_round.is_none());
    for (n, round) in room.past_rounds.iter().enumerate() {
        assert_eq!(round.round_num, n);
        assert_eq!(round.state, RoundState::Polling);
        assert_eq!(round.polls.len(), 2);
    }
}

#[test]
fn a_dead_room_stays_as_it_is() {
    let mut room = playing(1, 1);
    step(&mut room, Sender::Player(0), Request::AddAnswer);
    assert_eq!(
        step(&mut room, Sender::Player(0), Request::SelectAnswer),
        Command::Response(Response::GameScore)
    );
    assert_eq!(room.state, RoomState::Dead);
    let before = format!("{:?}", room);
    for request in [
        Request::JoinRoom,
        Request::AddQuestion,
        Request::AddAnswer,
        Request::SelectAnswer,
        Request::Disconnecting,
    ] {
        assert_eq!(step(&mut room, Sender::Player(0), request), Command::Skip);
        assert_eq!(step(&mut room, Sender::Global, request), Command::Skip);
    }
    assert_eq!(
        step(&mut room, Sender::Player(0), Request::GetRoomState),
        Command::Response(Response::Priv(0, Box::new(Response::RoomState)))
    );
    assert_eq!(format!("{:?}", room), before);
}

#[test]
fn the_state_of_the_room_is_told_to_the_one_who_asks() {
    let mut room = Room::new(ID, 0, 2, 2);
    assert_eq!(
        step(&mut room, Sender::Player(1), Request::GetRoomState),
        Command::Response(Response::Priv(1, Box::new(Response::RoomState)))
    );
    assert_eq!(
        step(&mut room, Sender::Global, Request::GetRoomState),
        Command::Response(Response::RoomState)
    );
    assert_eq!(room.current_players(), 0);
}

#[test]
fn a_vote_goes_to_the_lowest_numbered_answer() {
    let mut room = playing(3, 1);
    step(&mut room, Sender::Player(2), Request::AddAnswer);
    step(&mut room, Sender::Player(1), Request::AddAnswer);
    step(&mut room, Sender::Player(0), Request::Disconnecting);
    assert_eq!(room.curr_round.as_ref().unwrap().state, RoundState::AcceptingAnswers);
    assert_eq!(room.current_players(), 2);
    let mut room = playing(3, 1);
    step(&mut room, Sender::Player(0), Request::Disconnecting);
    step(&mut room, Sender::Player(2), Request::AddAnswer);
    assert_eq!(
        step(&mut room, Sender::Player(1), Request::AddAnswer),
        Command::Response(Response::NewRound)
    );
    step(&mut room, Sender::Player(2), Request::SelectAnswer);
    assert_eq!(room.curr_round.as_ref().unwrap().polls[&2], 1);
}

#[test]
fn a_player_who_left_after_voting_leaves_the_vote_behind() {
    let mut room = playing(2, 1);
    step(&mut room, Sender::Player(0), Request::AddAnswer);
    step(&mut room, Sender::Player(1), Request::AddAnswer);
    step(&mut room, Sender::Player(0), Request::SelectAnswer);
    assert_eq!(
        step(&mut room, Sender::Player(0), Request::Disconnecting),
        Command::Response(Response::PlayerDisconnected)
    );
    let round = room.curr_round.as_ref().unwrap();
    assert!(round.polls.contains_key(&0));
    assert!(round.answers.contains_key(&0));
    assert_eq!(
        step(&mut room, Sender::Player(1), Request::SelectAnswer),
        Command::Response(Response::GameScore)
    );
}

#[test]
fn a_response_is_addressed_to_the_one_who_asked() {
    assert_eq!(address(Sender::Global, Response::RoomState), Response::RoomState);
    assert_eq!(
        address(Sender::Player(6), Response::RoomState),
        Response::Priv(6, Box::new(Response::RoomState))
    );
}

#[test]
fn a_question_is_copied_whole() {
    let mut room = playing(1, 1);
    room.questions[0].content = "why?".to_string();
    let copy = room.questions[0].duplicate();
    assert_eq!(copy.id, 0);
    assert_eq!(copy.player_id, 0);
    assert_eq!(copy.content, "why?");
}
