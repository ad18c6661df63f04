//! How a call fails on the client's side.

use crate::method::DecodeError;
use crate::status::{status_text, Code, Status};
use vstd::prelude::*;
use vstd::string::to_string_from_display_ensures;

verus! {

/// `std::io::Error`, carried through unread.
#[verifier::external_type_specification]
#[verifier::external_body]
pub struct ExIoError(std::io::Error);

/// Client-side failure of one call.
#[derive(Debug)]
pub enum RpcError {
    /// The server closed the call with a non-OK status.
    Status(Status),
    /// The connection failed; the call's fate is unknown.
    Transport(std::io::Error),
    /// A payload did not decode as the expected message type.
    Decode(DecodeError),
    /// The peer violated the protocol (e.g. CLOSE(OK) without a response).
    Protocol(String),
}

/// Whether `err` is the status `code` with the detail `message`.
pub open spec fn is_status(err: RpcError, code: u16, message: Seq<char>) -> bool {
    err matches RpcError::Status(status) && status@ == (code, message)
}

/// Whether `err` is the protocol violation that `what` describes.
pub open spec fn is_protocol(err: RpcError, what: Seq<char>) -> bool {
    err matches RpcError::Protocol(text) && text@ == what
}

impl RpcError {
    /// The status code, when the failure has one. Local timeouts map to
    /// `DEADLINE_EXCEEDED` so callers match on one code either way.
    pub fn code(&self) -> (code: Option<Code>)
        ensures
            code == match *self {
                RpcError::Status(status) => Some(status.code),
                _ => None::<Code>,
            },
    {
        match self {
            RpcError::Status(status) => Some(status.code),
            _ => None,
        }
    }

    /// The failure as text.
    ///
    /// How an I/O error puts itself is the platform's business: of that case
    /// only what precedes it is fixed.
    pub fn to_string(&self) -> (text: String)
        ensures
            match *self {
                RpcError::Status(status) => text@ == "call failed: "@ + status_text(
                    status.code.0,
                    status.message@,
                ),
                RpcError::Transport(err) => exists|detail: String|
                    #[trigger] to_string_from_display_ensures::<std::io::Error>(&err, detail)
                        && text@ == "transport: "@ + detail@,
                RpcError::Decode(err) => text@ == "response did not decode: "@ + err.detail@,
                RpcError::Protocol(what) => text@ == "protocol violation: "@ + what@,
            },
    {
        match self {
            RpcError::Status(status) => {
                let mut text = String::from_str("call failed: ");
                text.append(status.to_string().as_str());
                text
            },
            RpcError::Transport(err) => {
                let mut text = String::from_str("transport: ");
                let detail = err.to_string();
                text.append(detail.as_str());
                text
            },
            RpcError::Decode(err) => {
                let mut text = String::from_str("response did not decode: ");
                text.append(err.detail.as_str());
                text
            },
            RpcError::Protocol(what) => {
                let mut text = String::from_str("protocol violation: ");
                text.append(what.as_str());
                text
            },
        }
    }
}

impl From<Status> for RpcError {
    fn from(status: Status) -> (err: RpcError) {
        RpcError::Status(status)
    }
}

impl vstd::std_specs::convert::FromSpecImpl<Status> for RpcError {
    open spec fn obeys_from_spec() -> bool {
        true
    }

    open spec fn from_spec(status: Status) -> RpcError {
        RpcError::Status(status)
    }
}

/// A failure that is a status has exactly that code and message, and a
/// protocol violation exactly that description.
pub proof fn failures_are_told_apart(err: RpcError, code: u16, message: Seq<char>)
    ensures
        is_status(err, code, message) <==> (err matches RpcError::Status(status)
            && status.code.0 == code && status.message@ == message),
        is_protocol(err, message) <==> (err matches RpcError::Protocol(what) && what@ == message),
{
}

} // verus!
