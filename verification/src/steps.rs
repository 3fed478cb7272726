//! The steps that the program around the library takes with a service: what happens to it,
//! and what it is told to do next.

use crate::json;
use crate::json::{Json, JsonView};
use crate::message;
use crate::message::{network_timeout_secs, AnnounceResp, MeshMessage};
use crate::reply;
use crate::reply::{forbidden_reply, Reply};
use crate::text::str_eq;
use vstd::prelude::*;
use vstd::string::*;

verus! {

/// What becomes of an announcement.
#[derive(Debug, PartialEq)]
pub enum Announced {
    Refused(Reply),
    Accepted(AnnounceResp),
}

/// What follows when a local agent gets a message.
#[derive(Debug, PartialEq)]
pub enum LocalRoute {
    AwaitAnswer,
    Done,
}

/// What happens to an agent that waits for its next message.
#[derive(Debug, PartialEq)]
pub enum NextEvent {
    Look,
    TimeUp,
}

/// What an agent that waits for its next message does.
#[derive(Debug, PartialEq)]
pub enum NextStep {
    Answer(Reply),
    Wait,
}

/// Where a message goes.
#[derive(Debug, PartialEq)]
pub enum Route {
    Local(MeshMessage),
    Remote { url: String, msg: MeshMessage },
    Unknown(String),
}

/// What a connector says.
#[derive(Debug, PartialEq)]
pub struct ConnectorEvent {
    pub kind: String,
    pub addr: Option<String>,
}

/// What to do about what a connector says.
#[derive(Debug, PartialEq)]
pub enum ConnectorAction {
    Nothing,
    Announce(String),
}

/// What happens to an announcement that was sent.
#[derive(Debug, PartialEq)]
pub enum AnnounceEvent {
    Failed(String),
    Status { success: bool, text: String },
    Answer(AnnounceResp),
}

/// What to do about an announcement that was sent.
#[derive(Debug, PartialEq)]
pub enum AnnounceStep {
    ReadAnswer,
    Done(Result<(), String>),
}

/// What happens to a message that was sent to a peer.
#[derive(Debug, PartialEq)]
pub enum RemoteEvent {
    Failed(String),
    Status { success: bool, text: String },
    Answer(Json),
}

/// What to do about a message that was sent to a peer.
#[derive(Debug, PartialEq)]
pub enum RemoteStep {
    ReadAnswer,
    Done(Result<Json, String>),
}

/// What came of a message of the given kind that was sent to a peer. The answer to a request
/// is the body of what the peer says; of other messages only the status counts.
pub fn remote_outcome(kind: &str, event: RemoteEvent) -> (r: RemoteStep)
    ensures
        match event {
            RemoteEvent::Failed(e) => r == RemoteStep::Done(Err(e)),
            RemoteEvent::Status { success, text } => if !success {
                r matches RemoteStep::Done(Err(e)) && e@ == "peer returned "@ + text@
            } else if message::asks(kind@) {
                r == RemoteStep::ReadAnswer
            } else {
                r == RemoteStep::Done(Ok(Json::Bool(true)))
            },
            RemoteEvent::Answer(page) => r matches RemoteStep::Done(Ok(body)) && body@
                == message::opt_value_json(page@.get("body"@)),
        },
{
    match event {
        RemoteEvent::Failed(e) => RemoteStep::Done(Err(e)),
        RemoteEvent::Status { success, text } => {
            if !success {
                let mut e = "peer returned ".to_owned();
                e.append(text.as_str());
                RemoteStep::Done(Err(e))
            } else if str_eq(kind, "request") {
                RemoteStep::ReadAnswer
            } else {
                RemoteStep::Done(Ok(Json::Bool(true)))
            }
        },
        RemoteEvent::Answer(page) => match page.get("body") {
            Some(body) => RemoteStep::Done(Ok(body.copy())),
            None => RemoteStep::Done(Ok(Json::Null)),
        },
    }
}

/// What came of a message for a local agent: of a request, its answer, which may not have
/// come in time.
pub fn local_outcome(route: LocalRoute, answer: Option<Json>) -> (r: Result<Json, String>)
    ensures
        reply::outcome_view(r) == (match route {
            LocalRoute::Done => Ok(JsonView::Bool(true)),
            LocalRoute::AwaitAnswer => match json::opt_json(answer) {
                Some(body) => Ok(body),
                None => Err("request timed out"@),
            },
        }),
{
    match route {
        LocalRoute::Done => Ok(Json::Bool(true)),
        LocalRoute::AwaitAnswer => match answer {
            Some(body) => Ok(body),
            None => Err("request timed out".to_owned()),
        },
    }
}

/// What becomes of a message that a peer passes on: how long it is given, in seconds, or the
/// answer to a caller that is not let in.
pub fn network_msg(authorized: bool, msg: &MeshMessage) -> (r: Result<u64, Reply>)
    ensures
        match r {
            Ok(secs) => authorized && secs == (if message::asks(msg@.kind) {
                30u64
            } else {
                1u64
            }),
            Err(answer) => !authorized && answer@ == reply::text_answer(403, "forbidden"@),
        },
{
    if authorized {
        Ok(network_timeout_secs(msg))
    } else {
        Err(forbidden_reply())
    }
}

} // verus!
