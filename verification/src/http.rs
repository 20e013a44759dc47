//! What the HTTP surface decides: where a request goes, and what a
//! request that cannot be served is answered.
use crate::service::dto::NewRoomResp;
use crate::text::{
    chars_of, json_string, json_string_of, signed_decimal, signed_decimal_string, spells,
};
use vstd::prelude::*;
use vstd::string::*;

verus! {

broadcast use vstd::string::group_string_axioms;

/// The status of an answer that carries what was asked for.
pub const OK: u16 = 200;

/// The status of the answer to a request whose body is no good.
pub const BAD_REQUEST: u16 = 400;

/// The status of the answer to a request that leads nowhere.
pub const NOT_FOUND: u16 = 404;

/// The status of the answer to a request that the service failed to
/// serve.
pub const INTERNAL_SERVER_ERROR: u16 = 500;

/// Where a request goes.
#[derive(Debug, Clone, Copy, PartialEq, Eq, Structural)]
pub enum Route {
    /// To the creation of a room.
    NewRoom,
    /// Nowhere.
    NotFound,
}

/// Why a request was not served.
#[derive(Debug, Clone, Copy, PartialEq, Eq, Structural)]
pub enum Refusal {
    /// It leads nowhere.
    NotFound,
    /// Its body could not be put together.
    Assemble,
    /// Its body does not say what room to create.
    Decode,
    /// The room could not be created.
    Internal,
}

/// An answer: its status and its body.
#[derive(Debug, PartialEq, Eq)]
pub struct Reply {
    pub status: u16,
    pub body: String,
}

/// Where the request for `path` by `method` goes: `POST /new_room` creates
/// a room, and nothing else goes anywhere.
pub open spec fn route_of(method: Seq<char>, path: Seq<char>) -> Route {
    if method == "POST"@ && path == "/new_room"@ {
        Route::NewRoom
    } else {
        Route::NotFound
    }
}

/// The body of an answer that says `msg` went wrong.
pub open spec fn error_body(msg: Seq<char>) -> Seq<char> {
    "{\"error\":\""@ + msg + "\"}"@
}

/// The body of the answer that tells of the room called `name` under the
/// password `password`.
pub open spec fn room_body(name: Seq<char>, password: i64) -> Seq<char> {
    "{\"id\":"@ + json_string(name) + ",\"password\":"@ + signed_decimal(password as int) + "}"@
}

/// The status that goes with a refusal.
pub open spec fn status_of(refusal: Refusal) -> u16 {
    match refusal {
        Refusal::NotFound => NOT_FOUND,
        Refusal::Assemble => BAD_REQUEST,
        Refusal::Decode => BAD_REQUEST,
        Refusal::Internal => INTERNAL_SERVER_ERROR,
    }
}

/// The words that go with a refusal.
pub open spec fn words_of(refusal: Refusal) -> Seq<char> {
    match refusal {
        Refusal::NotFound => "not found"@,
        Refusal::Assemble => "could not assemble message"@,
        Refusal::Decode => "could not decode message"@,
        Refusal::Internal => "internal server error"@,
    }
}

/// Whether `a` and `b` read the same.
fn same(a: &str, b: &str) -> (r: bool)
    ensures
        r == (a@ == b@),
{
    let v = chars_of(a);
    assert(v@.subrange(0, v.len() as int) =~= v@);
    spells(&v, 0, v.len(), b)
}

/// Where the request for `path` by `method` goes.
pub fn route(method: &str, path: &str) -> (r: Route)
    ensures
        r == route_of(method@, path@),
{
    if same(method, "POST") && same(path, "/new_room") {
        Route::NewRoom
    } else {
        Route::NotFound
    }
}

/// The answer of status `status` that says `msg` went wrong.
pub fn error_response(msg: &str, status: u16) -> (reply: Reply)
    ensures
        reply.status == status,
        reply.body@ == error_body(msg@),
{
    let mut body = String::from_str("{\"error\":\"");
    body.append(msg);
    body.append("\"}");
    Reply { status, body }
}

/// The answer that goes with a refusal.
pub fn refuse(refusal: Refusal) -> (reply: Reply)
    ensures
        reply.status == status_of(refusal),
        reply.body@ == error_body(words_of(refusal)),
{
    match refusal {
        Refusal::NotFound => error_response("not found", NOT_FOUND),
        Refusal::Assemble => error_response("could not assemble message", BAD_REQUEST),
        Refusal::Decode => error_response("could not decode message", BAD_REQUEST),
        Refusal::Internal => error_response("internal server error", INTERNAL_SERVER_ERROR),
    }
}

/// The answer to a request for a room that was created.
pub fn room_created(resp: &NewRoomResp) -> (reply: Reply)
    ensures
        reply.status == OK,
        reply.body@ == room_body(resp.name(), resp.pass()),
{
    let mut body = String::from_str("{\"id\":");
    let id = json_string_of(resp.id().as_str());
    body.append(id.as_str());
    body.append(",\"password\":");
    let password = signed_decimal_string(resp.password());
    body.append(password.as_str());
    body.append("}");
    Reply { status: OK, body }
}

} // verus!
