//! What the service answers to a request: a status, a body, and whether agents that wait
//! for a message are to look again.

use crate::json;
use crate::json::{json_field, Json, JsonView};
use vstd::prelude::*;

verus! {

/// The body of an answer.
#[derive(Debug, PartialEq)]
pub enum ReplyBody {
    Json(Json),
    Text(String),
}

/// An answer to a request, with its HTTP status code.
#[derive(Debug, PartialEq)]
pub struct Reply {
    pub status: u16,
    pub body: ReplyBody,
    pub wake: bool,
}

pub enum ReplyBodyView {
    Json(JsonView),
    Text(Seq<char>),
}

pub struct ReplyView {
    pub status: u16,
    pub body: ReplyBodyView,
    pub wake: bool,
}

impl View for Reply {
    type V = ReplyView;

    open spec fn view(&self) -> ReplyView {
        ReplyView {
            status: self.status,
            body: match self.body {
                ReplyBody::Json(j) => ReplyBodyView::Json(j@),
                ReplyBody::Text(s) => ReplyBodyView::Text(s@),
            },
            wake: self.wake,
        }
    }
}

/// An answer that carries JSON.
pub open spec fn json_answer(body: JsonView) -> ReplyView {
    ReplyView { status: 200, body: ReplyBodyView::Json(body), wake: false }
}

/// An answer that carries text.
pub open spec fn text_answer(status: u16, body: Seq<char>) -> ReplyView {
    ReplyView { status, body: ReplyBodyView::Text(body), wake: false }
}

/// `{"ok": true}`.
pub open spec fn ok_json() -> JsonView {
    JsonView::Object(seq![("ok"@, JsonView::Bool(true))])
}

/// `{"ok": true, "body": body}`.
pub open spec fn ok_body_json(body: JsonView) -> JsonView {
    JsonView::Object(seq![("ok"@, JsonView::Bool(true)), ("body"@, body)])
}

/// The answer that all went well.
pub open spec fn ok_answer(wake: bool) -> ReplyView {
    ReplyView { status: 200, body: ReplyBodyView::Json(ok_json()), wake }
}

/// The answer that all went well.
pub fn ok_reply(wake: bool) -> (r: Reply)
    ensures
        r@ == ok_answer(wake),
{
    broadcast use json::lemma_json_view;
    let mut fields: Vec<(String, Json)> = Vec::new();
    fields.push(json_field("ok", Json::Bool(true)));
    let j = Json::Object(fields);
    proof {
        assert(j@->Object_0 =~= ok_json()->Object_0);
    }
    Reply { status: 200, body: ReplyBody::Json(j), wake }
}

/// An answer that carries JSON.
pub fn json_reply(body: Json) -> (r: Reply)
    ensures
        r@ == json_answer(body@),
{
    Reply { status: 200, body: ReplyBody::Json(body), wake: false }
}

/// An answer that carries text.
pub fn text_reply(status: u16, body: String) -> (r: Reply)
    ensures
        r@ == text_answer(status, body@),
{
    Reply { status, body: ReplyBody::Text(body), wake: false }
}

/// What came of a message, by views: the answer to it, or why it was not delivered.
pub open spec fn outcome_view(r: Result<Json, String>) -> Result<JsonView, Seq<char>> {
    match r {
        Ok(j) => Ok(j@),
        Err(e) => Err(e@),
    }
}

/// The answer to an agent that sent a message.
pub open spec fn send_answer(outcome: Result<JsonView, Seq<char>>) -> ReplyView {
    match outcome {
        Ok(_) => ok_answer(false),
        Err(e) => text_answer(502, e),
    }
}

/// The answer to an agent that sent a request.
pub open spec fn request_answer(outcome: Result<JsonView, Seq<char>>) -> ReplyView {
    match outcome {
        Ok(body) => json_answer(ok_body_json(body)),
        Err(e) => text_answer(504, e),
    }
}

/// The answer to a peer that passed a message on.
pub open spec fn network_answer(outcome: Result<JsonView, Seq<char>>) -> ReplyView {
    match outcome {
        Ok(body) => json_answer(ok_body_json(body)),
        Err(e) => text_answer(502, e),
    }
}

fn ok_body(body: Json) -> (j: Json)
    ensures
        j@ == ok_body_json(body@),
{
    broadcast use json::lemma_json_view;
    let mut fields: Vec<(String, Json)> = Vec::new();
    fields.push(json_field("ok", Json::Bool(true)));
    fields.push(json_field("body", body));
    let j = Json::Object(fields);
    proof {
        assert(j@->Object_0 =~= ok_body_json(body@)->Object_0);
    }
    j
}

/// The answer to an agent that sent a message.
pub fn send_reply(outcome: Result<Json, String>) -> (r: Reply)
    ensures
        r@ == send_answer(outcome_view(outcome)),
{
    match outcome {
        Ok(_) => ok_reply(false),
        Err(e) => text_reply(502, e),
    }
}

/// The answer to an agent that sent a request.
pub fn request_reply(outcome: Result<Json, String>) -> (r: Reply)
    ensures
        r@ == request_answer(outcome_view(outcome)),
{
    match outcome {
        Ok(body) => json_reply(ok_body(body)),
        Err(e) => text_reply(504, e),
    }
}

/// The answer to a peer that passed a message on.
pub fn network_reply(outcome: Result<Json, String>) -> (r: Reply)
    ensures
        r@ == network_answer(outcome_view(outcome)),
{
    match outcome {
        Ok(body) => json_reply(ok_body(body)),
        Err(e) => text_reply(502, e),
    }
}

/// The answer to a caller that is not let in.
pub fn forbidden_reply() -> (r: Reply)
    ensures
        r@ == text_answer(403, "forbidden"@),
{
    text_reply(403, "forbidden".to_owned())
}

} // verus!
