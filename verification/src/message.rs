//! The messages that players and room runtimes exchange, and their JSON
//! texts.
//!
//! A message is written as an externally tagged JSON value, in compact form:
//! a variant without data is a string holding its name, `Err` is an object
//! with the one key `"Err"`, and `Priv` is an object with the one key
//! `"Priv"` over a two-element array. Decoding accepts exactly that text,
//! with any JSON whitespace before and after it.
use crate::text::{
    chars_of, decimal, decimal_string, find_sep, first_sep, is_digit, is_space, lemma_decimal_injective,
    lemma_decimal_is_numeral, lemma_first_sep, lemma_first_sep_at, lemma_trim_tight, parse_decimal,
    spells, trim, trim_bounds,
};
use vstd::prelude::*;
use vstd::string::*;

verus! {

broadcast use vstd::string::group_string_axioms;

/// Number of a player within a room.
pub type PlayerId = usize;

/// What a client asks of a room runtime.
#[derive(Debug, Clone, Copy, PartialEq, Eq, Structural)]
pub enum Request {
    GetRoomState,
    JoinRoom,
    AddQuestion,
    AddAnswer,
    SelectAnswer,
    Disconnecting,
}

/// Why a request was refused.
#[derive(Debug, Clone, Copy, PartialEq, Eq, Structural)]
pub enum ErrResponse {
    QuestionLimitReached,
    AnswerAlreadySent,
    AnswerAlreadySelected,
}

/// What a room runtime tells its clients.
///
/// Every variant but `Priv` is meant for the whole room; `Priv` addresses
/// the response it holds to one player.
#[derive(Debug, PartialEq, Eq)]
pub enum Response {
    RuntimeStarted,
    NewPlayerJoined,
    PlayerDisconnected,
    QuestionAdded,
    NewRound,
    GameScore,
    RoomState,
    /// A refusal; its JSON tag is `Err`.
    Error(ErrResponse),
    Priv(PlayerId, Box<Response>),
}

/// The JSON text of a request.
pub open spec fn request_text(r: Request) -> Seq<char> {
    match r {
        Request::GetRoomState => "\"GetRoomState\""@,
        Request::JoinRoom => "\"JoinRoom\""@,
        Request::AddQuestion => "\"AddQuestion\""@,
        Request::AddAnswer => "\"AddAnswer\""@,
        Request::SelectAnswer => "\"SelectAnswer\""@,
        Request::Disconnecting => "\"Disconnecting\""@,
    }
}

/// The JSON text of a refusal.
pub open spec fn err_text(e: ErrResponse) -> Seq<char> {
    match e {
        ErrResponse::QuestionLimitReached => "\"QuestionLimitReached\""@,
        ErrResponse::AnswerAlreadySent => "\"AnswerAlreadySent\""@,
        ErrResponse::AnswerAlreadySelected => "\"AnswerAlreadySelected\""@,
    }
}

/// The JSON text of a response.
pub open spec fn response_text(r: Response) -> Seq<char>
    decreases r,
{
    match r {
        Response::RuntimeStarted => "\"RuntimeStarted\""@,
        Response::NewPlayerJoined => "\"NewPlayerJoined\""@,
        Response::PlayerDisconnected => "\"PlayerDisconnected\""@,
        Response::QuestionAdded => "\"QuestionAdded\""@,
        Response::NewRound => "\"NewRound\""@,
        Response::GameScore => "\"GameScore\""@,
        Response::RoomState => "\"RoomState\""@,
        Response::Error(e) => "{\"Err\":"@ + err_text(e) + "}"@,
        Response::Priv(p, inner) => "{\"Priv\":["@ + decimal(p as nat) + ","@ + response_text(
            *inner,
        ) + "]}"@,
    }
}

/// The request that `t` is the text of, whitespace around it aside.
pub open spec fn decoded_request(t: Seq<char>) -> Option<Request> {
    if exists|r: Request| request_text(r) == trim(t) {
        Some(choose|r: Request| request_text(r) == trim(t))
    } else {
        None
    }
}

/// The refusal that `t` is the text of, whitespace around it aside.
pub open spec fn decoded_err(t: Seq<char>) -> Option<ErrResponse> {
    if exists|e: ErrResponse| err_text(e) == trim(t) {
        Some(choose|e: ErrResponse| err_text(e) == trim(t))
    } else {
        None
    }
}

/// The response that `t` is the text of, whitespace around it aside.
pub open spec fn decoded_response(t: Seq<char>) -> Option<Response> {
    if exists|r: Response| response_text(r) == trim(t) {
        Some(choose|r: Response| response_text(r) == trim(t))
    } else {
        None
    }
}

proof fn reveal_request_names()
    ensures
        "\"GetRoomState\""@.len() == 14,
        "\"JoinRoom\""@.len() == 10,
        "\"AddQuestion\""@.len() == 13,
        "\"AddAnswer\""@.len() == 11,
        "\"SelectAnswer\""@.len() == 14,
        "\"Disconnecting\""@.len() == 15,
        "\"GetRoomState\""@[1] == 'G',
        "\"SelectAnswer\""@[1] == 'S',
        forall|r: Request|
            #![trigger request_text(r)]
            request_text(r)[0] == '"' && request_text(r).last() == '"' && request_text(r).len()
                >= 10,
{
    reveal_strlit("\"GetRoomState\"");
    reveal_strlit("\"JoinRoom\"");
    reveal_strlit("\"AddQuestion\"");
    reveal_strlit("\"AddAnswer\"");
    reveal_strlit("\"SelectAnswer\"");
    reveal_strlit("\"Disconnecting\"");
}

proof fn reveal_err_names()
    ensures
        "\"QuestionLimitReached\""@.len() == 22,
        "\"AnswerAlreadySent\""@.len() == 19,
        "\"AnswerAlreadySelected\""@.len() == 23,
        forall|e: ErrResponse|
            #![trigger err_text(e)]
            err_text(e)[0] == '"' && err_text(e).last() == '"' && err_text(e).len() >= 19,
{
    reveal_strlit("\"QuestionLimitReached\"");
    reveal_strlit("\"AnswerAlreadySent\"");
    reveal_strlit("\"AnswerAlreadySelected\"");
}

proof fn reveal_response_names()
    ensures
        "\"RuntimeStarted\""@.len() == 16,
        "\"NewPlayerJoined\""@.len() == 17,
        "\"PlayerDisconnected\""@.len() == 20,
        "\"QuestionAdded\""@.len() == 15,
        "\"NewRound\""@.len() == 10,
        "\"GameScore\""@.len() == 11,
        "\"RoomState\""@.len() == 11,
        "\"GameScore\""@[1] == 'G',
        "\"RoomState\""@[1] == 'R',
        "\"RuntimeStarted\""@[0] == '"',
        "\"NewPlayerJoined\""@[0] == '"',
        "\"PlayerDisconnected\""@[0] == '"',
        "\"QuestionAdded\""@[0] == '"',
        "\"NewRound\""@[0] == '"',
        "\"GameScore\""@[0] == '"',
        "\"RoomState\""@[0] == '"',
        "\"RuntimeStarted\""@.last() == '"',
        "\"NewPlayerJoined\""@.last() == '"',
        "\"PlayerDisconnected\""@.last() == '"',
        "\"QuestionAdded\""@.last() == '"',
        "\"NewRound\""@.last() == '"',
        "\"GameScore\""@.last() == '"',
        "\"RoomState\""@.last() == '"',
        "{\"Err\":"@ =~= seq!['{', '"', 'E', 'r', 'r', '"', ':'],
        "}"@ =~= seq!['}'],
        "{\"Priv\":["@ =~= seq!['{', '"', 'P', 'r', 'i', 'v', '"', ':', '['],
        ","@ =~= seq![','],
        "]}"@ =~= seq![']', '}'],
{
    reveal_strlit("\"RuntimeStarted\"");
    reveal_strlit("\"NewPlayerJoined\"");
    reveal_strlit("\"PlayerDisconnected\"");
    reveal_strlit("\"QuestionAdded\"");
    reveal_strlit("\"NewRound\"");
    reveal_strlit("\"GameScore\"");
    reveal_strlit("\"RoomState\"");
    reveal_strlit("{\"Err\":");
    reveal_strlit("}");
    reveal_strlit("{\"Priv\":[");
    reveal_strlit(",");
    reveal_strlit("]}");
}

/// Two requests with the same text are the same request.
pub proof fn lemma_request_text_injective(a: Request, b: Request)
    requires
        request_text(a) == request_text(b),
    ensures
        a == b,
{
    reveal_request_names();
}

/// Two refusals with the same text are the same refusal.
pub proof fn lemma_err_text_injective(a: ErrResponse, b: ErrResponse)
    requires
        err_text(a) == err_text(b),
    ensures
        a == b,
{
    reveal_err_names();
}

/// What a response text looks like at its ends, by the kind of response.
proof fn lemma_response_text_ends(r: Response)
    ensures
        response_text(r).len() >= 10,
        !is_space(response_text(r)[0]),
        !is_space(response_text(r).last()),
        r is Error ==> response_text(r)[0] == '{' && response_text(r)[2] == 'E',
        r is Priv ==> response_text(r)[0] == '{' && response_text(r)[2] == 'P',
        !(r is Error) && !(r is Priv) ==> response_text(r)[0] == '"',
{
    reveal_response_names();
    reveal_err_names();
    match r {
        Response::Error(e) => {
            let t = "{\"Err\":"@ + err_text(e) + "}"@;
            assert(t.len() == 8 + err_text(e).len());
            assert(t[0] == '{');
            assert(t[2] == 'E');
            assert(t.last() == '}');
        },
        Response::Priv(p, inner) => {
            let t = "{\"Priv\":["@ + decimal(p as nat) + ","@ + response_text(*inner) + "]}"@;
            assert(t.len() == 12 + decimal(p as nat).len() + response_text(*inner).len());
            assert(t[0] == '{');
            assert(t[2] == 'P');
            assert(t.last() == '}');
        },
        _ => {},
    }
}

/// Whether a response is one of the variants without data.
pub open spec fn is_plain(r: Response) -> bool {
    !(r is Error) && !(r is Priv)
}

/// The text of a refusal response: an opening, the refusal's text and a
/// closing brace.
proof fn lemma_error_text(e: ErrResponse)
    ensures
        ({
            let t = response_text(Response::Error(e));
            &&& "{\"Err\":"@.len() == 7
            &&& "}"@.len() == 1
            &&& t.len() == 8 + err_text(e).len()
            &&& t.take(7) == "{\"Err\":"@
            &&& t.skip(t.len() - 1) == "}"@
            &&& t.subrange(7, t.len() - 1) == err_text(e)
        }),
{
    reveal_response_names();
    let t = response_text(Response::Error(e));
    assert(t == "{\"Err\":"@ + err_text(e) + "}"@);
    assert(t.take(7) =~= "{\"Err\":"@);
    assert(t.skip(t.len() - 1) =~= "}"@);
    assert(t.subrange(7, t.len() - 1) =~= err_text(e));
}

/// The stretch between the opening and the closing of a `Priv` text: the
/// player's numeral, a comma and the text of the response held.
proof fn lemma_priv_text(p: PlayerId, inner: Response)
    ensures
        ({
            let t = response_text(Response::Priv(p, Box::new(inner)));
            let d = decimal(p as nat);
            let body = t.subrange(9, t.len() - 2);
            &&& "{\"Priv\":["@.len() == 9
            &&& "]}"@.len() == 2
            &&& ","@.len() == 1
            &&& ","@[0] == ','
            &&& d.len() >= 1
            &&& t.len() == 12 + d.len() + response_text(inner).len()
            &&& t.take(9) == "{\"Priv\":["@
            &&& t.skip(t.len() - 2) == "]}"@
            &&& body == d + ","@ + response_text(inner)
            &&& first_sep(body, ',') == d.len()
            &&& body.take(d.len() as int) == d
            &&& body.skip(d.len() as int + 1) == response_text(inner)
        }),
{
    reveal_response_names();
    let t = response_text(Response::Priv(p, Box::new(inner)));
    let d = decimal(p as nat);
    let i = response_text(inner);
    assert(t == "{\"Priv\":["@ + d + ","@ + i + "]}"@);
    let body = t.subrange(9, t.len() - 2);
    assert(t.take(9) =~= "{\"Priv\":["@);
    assert(t.skip(t.len() - 2) =~= "]}"@);
    assert(body =~= d + ","@ + i);
    lemma_decimal_is_numeral(p as nat);
    assert forall|k: int| 0 <= k < d.len() implies #[trigger] body[k] != ',' by {
        assert(body[k] == d[k]);
        assert(is_digit(d[k]));
    }
    assert(body[d.len() as int] == ',');
    lemma_first_sep_at(body, ',', d.len() as int);
    assert(body.take(d.len() as int) =~= d);
    assert(body.skip(d.len() as int + 1) =~= i);
}

/// Two responses with the same text are the same response.
pub proof fn lemma_response_text_injective(a: Response, b: Response)
    requires
        response_text(a) == response_text(b),
    ensures
        a == b,
    decreases a,
{
    lemma_response_text_ends(a);
    lemma_response_text_ends(b);
    reveal_response_names();
    match a {
        Response::Error(e) => {
            let f = b->Error_0;
            let ta = "{\"Err\":"@ + err_text(e) + "}"@;
            let tb = "{\"Err\":"@ + err_text(f) + "}"@;
            assert(ta.len() == tb.len());
            assert(err_text(e).len() == err_text(f).len());
            assert forall|k: int| 0 <= k < err_text(e).len() implies err_text(e)[k] == err_text(
                f,
            )[k] by {
                assert(ta[7 + k] == err_text(e)[k]);
                assert(tb[7 + k] == err_text(f)[k]);
            }
            assert(err_text(e) =~= err_text(f));
            lemma_err_text_injective(e, f);
        },
        Response::Priv(p, inner) => {
            let q = b->Priv_0;
            let other = b->Priv_1;
            lemma_priv_text(p, *inner);
            lemma_priv_text(q, *other);
            assert(a == Response::Priv(p, Box::new(*inner)));
            assert(b == Response::Priv(q, Box::new(*other)));
            lemma_decimal_injective(p as nat, q as nat);
            lemma_response_text_injective(*inner, *other);
        },
        _ => {},
    }
}

/// Decoding the text of a request gives that request back.
pub proof fn lemma_request_round_trip(r: Request)
    ensures
        decoded_request(request_text(r)) == Some(r),
{
    reveal_request_names();
    lemma_trim_tight(request_text(r));
    let d = choose|x: Request| request_text(x) == trim(request_text(r));
    lemma_request_text_injective(d, r);
}

/// Decoding the text of a refusal gives that refusal back.
pub proof fn lemma_err_round_trip(e: ErrResponse)
    ensures
        decoded_err(err_text(e)) == Some(e),
{
    reveal_err_names();
    lemma_trim_tight(err_text(e));
    let d = choose|x: ErrResponse| err_text(x) == trim(err_text(e));
    lemma_err_text_injective(d, e);
}

/// Decoding the text of a response gives that response back.
pub proof fn lemma_response_round_trip(r: Response)
    ensures
        decoded_response(response_text(r)) == Some(r),
{
    lemma_response_text_ends(r);
    lemma_trim_tight(response_text(r));
    let d = choose|x: Response| response_text(x) == trim(response_text(r));
    lemma_response_text_injective(d, r);
}

impl Request {
    /// The JSON text of this request.
    pub fn to_json(&self) -> (s: String)
        ensures
            s@ == request_text(*self),
    {
        match self {
            Request::GetRoomState => String::from_str("\"GetRoomState\""),
            Request::JoinRoom => String::from_str("\"JoinRoom\""),
            Request::AddQuestion => String::from_str("\"AddQuestion\""),
            Request::AddAnswer => String::from_str("\"AddAnswer\""),
            Request::SelectAnswer => String::from_str("\"SelectAnswer\""),
            Request::Disconnecting => String::from_str("\"Disconnecting\""),
        }
    }

    /// Reads a request from its JSON text. `None` when `s` is the text of
    /// no request.
    pub fn from_json(s: &str) -> (r: Option<Request>)
        ensures
            r == decoded_request(s@),
    {
        let v = chars_of(s);
        let (a, b) = trim_bounds(&v);
        let r = if spells(&v, a, b, "\"GetRoomState\"") {
            Some(Request::GetRoomState)
        } else if spells(&v, a, b, "\"JoinRoom\"") {
            Some(Request::JoinRoom)
        } else if spells(&v, a, b, "\"AddQuestion\"") {
            Some(Request::AddQuestion)
        } else if spells(&v, a, b, "\"AddAnswer\"") {
            Some(Request::AddAnswer)
        } else if spells(&v, a, b, "\"SelectAnswer\"") {
            Some(Request::SelectAnswer)
        } else if spells(&v, a, b, "\"Disconnecting\"") {
            Some(Request::Disconnecting)
        } else {
            None
        };
        proof {
            match r {
                Some(x) => {
                    assert(request_text(x) == trim(s@));
                    let d = choose|y: Request| request_text(y) == trim(s@);
                    lemma_request_text_injective(d, x);
                },
                None => {
                    assert forall|y: Request| request_text(y) != trim(s@) by {}
                },
            }
        }
        r
    }
}

impl ErrResponse {
    /// The JSON text of this refusal.
    pub fn to_json(&self) -> (s: String)
        ensures
            s@ == err_text(*self),
    {
        match self {
            ErrResponse::QuestionLimitReached => String::from_str("\"QuestionLimitReached\""),
            ErrResponse::AnswerAlreadySent => String::from_str("\"AnswerAlreadySent\""),
            ErrResponse::AnswerAlreadySelected => String::from_str("\"AnswerAlreadySelected\""),
        }
    }

    /// Reads the refusal that `v[from..to]` spells, if it spells one.
    fn read(v: &Vec<char>, from: usize, to: usize) -> (r: Option<ErrResponse>)
        requires
            from <= to <= v.len(),
        ensures
            match r {
                Some(e) => v@.subrange(from as int, to as int) == err_text(e),
                None => forall|e: ErrResponse| v@.subrange(from as int, to as int) != err_text(e),
            },
    {
        if spells(v, from, to, "\"QuestionLimitReached\"") {
            Some(ErrResponse::QuestionLimitReached)
        } else if spells(v, from, to, "\"AnswerAlreadySent\"") {
            Some(ErrResponse::AnswerAlreadySent)
        } else if spells(v, from, to, "\"AnswerAlreadySelected\"") {
            Some(ErrResponse::AnswerAlreadySelected)
        } else {
            None
        }
    }

    /// Reads a refusal from its JSON text. `None` when `s` is the text of
    /// no refusal.
    pub fn from_json(s: &str) -> (r: Option<ErrResponse>)
        ensures
            r == decoded_err(s@),
    {
        let v = chars_of(s);
        let (a, b) = trim_bounds(&v);
        let r = Self::read(&v, a, b);
        proof {
            match r {
                Some(x) => {
                    let d = choose|y: ErrResponse| err_text(y) == trim(s@);
                    lemma_err_text_injective(d, x);
                },
                None => {},
            }
        }
        r
    }
}

impl Response {
    /// The JSON text of this response.
    pub fn to_json(&self) -> (s: String)
        ensures
            s@ == response_text(*self),
        decreases *self,
    {
        match self {
            Response::RuntimeStarted => String::from_str("\"RuntimeStarted\""),
            Response::NewPlayerJoined => String::from_str("\"NewPlayerJoined\""),
            Response::PlayerDisconnected => String::from_str("\"PlayerDisconnected\""),
            Response::QuestionAdded => String::from_str("\"QuestionAdded\""),
            Response::NewRound => String::from_str("\"NewRound\""),
            Response::GameScore => String::from_str("\"GameScore\""),
            Response::RoomState => String::from_str("\"RoomState\""),
            Response::Error(e) => {
                let mut s = String::from_str("{\"Err\":");
                let t = e.to_json();
                s.append(t.as_str());
                s.append("}");
                s
            },
            Response::Priv(p, inner) => {
                let mut s = String::from_str("{\"Priv\":[");
                let d = decimal_string(*p);
                s.append(d.as_str());
                s.append(",");
                let t = inner.to_json();
                s.append(t.as_str());
                s.append("]}");
                s
            },
        }
    }

    /// Reads the response without data that `v[from..to]` spells.
    fn read_plain(v: &Vec<char>, from: usize, to: usize) -> (r: Option<Response>)
        requires
            from <= to <= v.len(),
        ensures
            match r {
                Some(m) => is_plain(m) && v@.subrange(from as int, to as int) == response_text(m),
                None => forall|m: Response|
                    is_plain(m) ==> v@.subrange(from as int, to as int) != #[trigger] response_text(
                        m,
                    ),
            },
    {
        if spells(v, from, to, "\"RuntimeStarted\"") {
            Some(Response::RuntimeStarted)
        } else if spells(v, from, to, "\"NewPlayerJoined\"") {
            Some(Response::NewPlayerJoined)
        } else if spells(v, from, to, "\"PlayerDisconnected\"") {
            Some(Response::PlayerDisconnected)
        } else if spells(v, from, to, "\"QuestionAdded\"") {
            Some(Response::QuestionAdded)
        } else if spells(v, from, to, "\"NewRound\"") {
            Some(Response::NewRound)
        } else if spells(v, from, to, "\"GameScore\"") {
            Some(Response::GameScore)
        } else if spells(v, from, to, "\"RoomState\"") {
            Some(Response::RoomState)
        } else {
            None
        }
    }

    /// Reads the refusal response that `v[from..to]` spells.
    fn read_error(v: &Vec<char>, from: usize, to: usize) -> (r: Option<Response>)
        requires
            from <= to <= v.len(),
        ensures
            match r {
                Some(m) => m is Error && v@.subrange(from as int, to as int) == response_text(m),
                None => forall|m: Response|
                    m is Error ==> v@.subrange(from as int, to as int) != #[trigger] response_text(
                        m,
                    ),
            },
    {
        let ghost span = v@.subrange(from as int, to as int);
        proof {
            lemma_error_text(ErrResponse::QuestionLimitReached);
        }
        if to - from >= 8 && spells(v, from, from + 7, "{\"Err\":") && spells(v, to - 1, to, "}") {
            let e = ErrResponse::read(v, from + 7, to - 1);
            proof {
                let body = v@.subrange(from + 7, to - 1);
                assert(v@.subrange(from as int, from + 7) =~= span.take(7));
                assert(v@.subrange(to - 1, to as int) =~= span.skip(span.len() - 1));
                assert(body =~= span.subrange(7, span.len() - 1));
                assert(span =~= span.take(7) + body + span.skip(span.len() - 1));
                if e is None {
                    assert forall|m: Response| m is Error implies span != #[trigger] response_text(
                        m,
                    ) by {
                        lemma_error_text(m->Error_0);
                    }
                }
            }
            match e {
                Some(e) => Some(Response::Error(e)),
                None => None,
            }
        } else {
            proof {
                assert forall|m: Response| m is Error implies span != #[trigger] response_text(
                    m,
                ) by {
                    lemma_error_text(m->Error_0);
                    if span == response_text(m) {
                        assert(v@.subrange(from as int, from + 7) =~= span.take(7));
                        assert(v@.subrange(to - 1, to as int) =~= span.skip(span.len() - 1));
                    }
                }
            }
            None
        }
    }

    /// Reads the addressed response that `v[from..to]` spells.
    fn read_priv(v: &Vec<char>, from: usize, to: usize) -> (r: Option<Response>)
        requires
            from <= to <= v.len(),
        ensures
            match r {
                Some(m) => m is Priv && v@.subrange(from as int, to as int) == response_text(m),
                None => forall|m: Response|
                    m is Priv ==> v@.subrange(from as int, to as int) != #[trigger] response_text(
                        m,
                    ),
            },
        decreases to - from, 0nat,
    {
        let ghost span = v@.subrange(from as int, to as int);
        proof {
            lemma_priv_text(0, Response::RoomState);
        }
        if !(to - from >= 12 && spells(v, from, from + 9, "{\"Priv\":[") && spells(
            v,
            to - 2,
            to,
            "]}",
        )) {
            proof {
                assert forall|m: Response| m is Priv implies span != #[trigger] response_text(
                    m,
                ) by {
                    lemma_priv_text(m->Priv_0, *m->Priv_1);
                    if span == response_text(m) {
                        assert(v@.subrange(from as int, from + 9) =~= span.take(9));
                        assert(v@.subrange(to - 2, to as int) =~= span.skip(span.len() - 2));
                    }
                }
            }
            return None;
        }
        let comma = find_sep(v, ',', from + 9);
        let ghost body = v@.subrange(from + 9, to - 2);
        let ghost at = comma - (from + 9);
        proof {
            assert(body =~= span.subrange(9, span.len() - 2));
            lemma_first_sep(v@.skip(from + 9), ',');
            if comma < to - 2 {
                assert forall|k: int| 0 <= k < at implies #[trigger] body[k] != ',' by {
                    assert(body[k] == v@.skip(from + 9)[k]);
                }
                assert(body[at] == v@.skip(from + 9)[at]);
                lemma_first_sep_at(body, ',', at);
            } else {
                assert forall|k: int| 0 <= k < body.len() implies #[trigger] body[k] != ',' by {
                    assert(body[k] == v@.skip(from + 9)[k]);
                }
                lemma_first_sep_at(body, ',', body.len() as int);
            }
        }
        if comma >= to - 2 {
            proof {
                assert forall|m: Response| m is Priv implies span != #[trigger] response_text(
                    m,
                ) by {
                    lemma_priv_text(m->Priv_0, *m->Priv_1);
                }
            }
            return None;
        }
        let player = parse_decimal(v, from + 9, comma);
        let inner = Self::read(v, comma + 1, to - 2);
        let ghost head = v@.subrange(from + 9, comma as int);
        let ghost tail = v@.subrange(comma + 1, to - 2);
        proof {
            assert(head =~= body.take(at));
            assert(tail =~= body.skip(at + 1));
        }
        match (player, inner) {
            (Some(p), Some(i)) => {
                proof {
                    lemma_priv_text(p, i);
                    assert(v@.subrange(from as int, from + 9) =~= span.take(9));
                    assert(v@.subrange(to - 2, to as int) =~= span.skip(span.len() - 2));
                    assert(body[at] == ',');
                    assert(body =~= head + ","@ + tail);
                    assert(span =~= span.take(9) + body + span.skip(span.len() - 2));
                    assert(span =~= "{\"Priv\":["@ + head + ","@ + tail + "]}"@);
                }
                Some(Response::Priv(p, Box::new(i)))
            },
            _ => {
                proof {
                    assert forall|m: Response| m is Priv implies span != #[trigger] response_text(
                        m,
                    ) by {
                        lemma_priv_text(m->Priv_0, *m->Priv_1);
                        if span == response_text(m) {
                            assert(head == decimal(m->Priv_0 as nat));
                            assert(tail == response_text(*m->Priv_1));
                        }
                    }
                }
                None
            },
        }
    }

    /// Reads the response that `v[from..to]` spells, if it spells one.
    fn read(v: &Vec<char>, from: usize, to: usize) -> (r: Option<Response>)
        requires
            from <= to <= v.len(),
        ensures
            match r {
                Some(m) => v@.subrange(from as int, to as int) == response_text(m),
                None => forall|m: Response|
                    v@.subrange(from as int, to as int) != #[trigger] response_text(m),
            },
        decreases to - from, 1nat,
    {
        match Self::read_plain(v, from, to) {
            Some(m) => Some(m),
            None => match Self::read_error(v, from, to) {
                Some(m) => Some(m),
                None => Self::read_priv(v, from, to),
            },
        }
    }

    /// Reads a response from its JSON text. `None` when `s` is the text of
    /// no response.
    pub fn from_json(s: &str) -> (r: Option<Response>)
        ensures
            r == decoded_response(s@),
    {
        let v = chars_of(s);
        let (a, b) = trim_bounds(&v);
        let r = Self::read(&v, a, b);
        proof {
            if r is Some {
                let d = choose|y: Response| response_text(y) == trim(s@);
                lemma_response_text_injective(d, r->0);
            }
        }
        r
    }
}

} // verus!
