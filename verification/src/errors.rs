//! The error that a command ends with.

use vstd::prelude::*;
use vstd::string::*;

verus! {

/// An error, as the message that the user is shown.
#[derive(Debug, PartialEq)]
pub struct MeshError {
    pub message: String,
}

/// An error with a message of ours.
pub fn boxed_error(message: String) -> (e: Box<MeshError>)
    ensures
        e.message@ == message@,
{
    Box::new(MeshError { message })
}

/// The message of a result that failed.
pub open spec fn error_text<T>(r: Result<T, Box<MeshError>>) -> Option<Seq<char>> {
    match r {
        Ok(_) => None,
        Err(e) => Some(e.message@),
    }
}

/// What a user is told where nobody answers on the control address.
pub const NOT_RUNNING: &'static str =
    "service is not running; run `pi-mesh start`, `pi --mesh-on`, or `/mesh on` in Pi";

/// The error of a control request that the service refused, with what it said.
pub fn control_failure(detail: &str) -> (e: Box<MeshError>)
    ensures
        e.message@ == "control request failed: "@ + detail@,
{
    let mut message = "control request failed: ".to_owned();
    message.append(detail);
    boxed_error(message)
}

/// The error of a control request with a body that the service refused, with what it said,
/// where that could be read.
pub fn control_post_failure(detail: Option<String>) -> (e: Box<MeshError>)
    ensures
        e.message@ == "control request failed: "@ + match detail {
            Some(text) => text@,
            None => "unknown error"@,
        },
{
    match detail {
        Some(text) => control_failure(text.as_str()),
        None => control_failure("unknown error"),
    }
}

/// The error of a control request that could not be sent: where nobody answered, how to start
/// the service; else what went wrong.
pub fn control_send_error(is_connect: bool, detail: String) -> (e: Box<MeshError>)
    ensures
        e.message@ == if is_connect {
            NOT_RUNNING@
        } else {
            detail@
        },
{
    if is_connect {
        boxed_error(NOT_RUNNING.to_owned())
    } else {
        boxed_error(detail)
    }
}

} // verus!
