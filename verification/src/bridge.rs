//! The answers of the HTTP bridge: what it replies to a request whose body could not be
//! read, to a body that is not a command, and to a command, given what the driver said
//! to it.
//! Serving HTTP and turning JSON into values is the caller's part.
use crate::driver::DriverError;
use crate::protocol::GameState;
use vstd::prelude::*;

verus! {

/// The body of an HTTP reply.
#[derive(Debug)]
pub enum ReplyBody {
    /// A game state, to be sent as its JSON.
    State(GameState),
    /// Text sent as it is.
    Text(String),
}

/// An HTTP reply: status code, whether it is marked as JSON, and body.
#[derive(Debug)]
pub struct HttpReply {
    pub status: u16,
    pub json_content_type: bool,
    pub body: ReplyBody,
}

/// `{"type":"error","message":"<message>"}`, the message inserted as it is.
pub open spec fn error_body_spec(message: Seq<char>) -> Seq<char> {
    "{\"type\":\"error\",\"message\":\""@ + message + "\"}"@
}

/// The error document carrying `message`: see [`error_body_spec`].
pub fn error_body(message: &str) -> (r: String)
    ensures
        r@ == error_body_spec(message@),
{
    let mut body = "{\"type\":\"error\",\"message\":\"".to_owned();
    body.append(message);
    body.append("\"}");
    body
}

/// Whether `reply` has status `status`, the given JSON marking, and the text `body`.
pub open spec fn is_text_reply(reply: HttpReply, status: u16, json: bool, body: Seq<char>) -> bool {
    &&& reply.status == status
    &&& reply.json_content_type == json
    &&& reply.body matches ReplyBody::Text(t) && t@ == body
}

/// The reply when the request body could not be read: 400, not marked as JSON.
pub fn unreadable_body_reply(error: &str) -> (r: HttpReply)
    ensures
        is_text_reply(r, 400, false, error_body_spec(error@)),
{
    HttpReply { status: 400, json_content_type: false, body: ReplyBody::Text(error_body(error)) }
}

/// The reply when the request body is not a command: 400, with `Invalid JSON: ` before
/// the parser's message.
pub fn invalid_command_reply(error: &str) -> (r: HttpReply)
    ensures
        is_text_reply(r, 400, true, error_body_spec("Invalid JSON: "@ + error@)),
{
    let mut message = "Invalid JSON: ".to_owned();
    message.append(error);
    HttpReply { status: 400, json_content_type: true, body: ReplyBody::Text(error_body(message.as_str())) }
}

/// The reply to a command, given the driver's answer: 200 with the game state, or 500
/// with the driver's error message.
pub fn driver_reply(outcome: Result<GameState, DriverError>) -> (r: HttpReply)
    ensures
        match outcome {
            Ok(s) => r.status == 200 && r.json_content_type && r.body == ReplyBody::State(s),
            Err(e) => is_text_reply(r, 500, true, error_body_spec(e.message@)),
        },
{
    match outcome {
        Ok(state) => HttpReply { status: 200, json_content_type: true, body: ReplyBody::State(state) },
        Err(e) => HttpReply {
            status: 500,
            json_content_type: true,
            body: ReplyBody::Text(error_body(e.message.as_str())),
        },
    }
}

} // verus!
