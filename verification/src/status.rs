//! Call outcomes: numeric codes and the statuses that carry them.

use crate::text::{decimal, decimal_text};
use vstd::prelude::*;

verus! {

/// Call outcome code. Numerically identical to gRPC status codes, so
/// migrating services keep their dashboards and retry policies.
/// Open: peers preserve codes they do not know.
#[derive(Clone, Copy, PartialEq, Eq, Hash, Debug, Structural)]
pub struct Code(pub u16);

/// The name of a known code.
pub open spec fn code_name(code: u16) -> Option<Seq<char>> {
    if code == Code::OK {
        Some("ok"@)
    } else if code == Code::CANCELLED {
        Some("cancelled"@)
    } else if code == Code::UNKNOWN {
        Some("unknown"@)
    } else if code == Code::INVALID_ARGUMENT {
        Some("invalid_argument"@)
    } else if code == Code::DEADLINE_EXCEEDED {
        Some("deadline_exceeded"@)
    } else if code == Code::NOT_FOUND {
        Some("not_found"@)
    } else if code == Code::ALREADY_EXISTS {
        Some("already_exists"@)
    } else if code == Code::PERMISSION_DENIED {
        Some("permission_denied"@)
    } else if code == Code::RESOURCE_EXHAUSTED {
        Some("resource_exhausted"@)
    } else if code == Code::FAILED_PRECONDITION {
        Some("failed_precondition"@)
    } else if code == Code::ABORTED {
        Some("aborted"@)
    } else if code == Code::OUT_OF_RANGE {
        Some("out_of_range"@)
    } else if code == Code::UNIMPLEMENTED {
        Some("unimplemented"@)
    } else if code == Code::INTERNAL {
        Some("internal"@)
    } else if code == Code::UNAVAILABLE {
        Some("unavailable"@)
    } else if code == Code::DATA_LOSS {
        Some("data_loss"@)
    } else if code == Code::UNAUTHENTICATED {
        Some("unauthenticated"@)
    } else {
        None
    }
}

/// A code as text: its name, or `code(N)` for one without a name.
pub open spec fn code_text(code: u16) -> Seq<char> {
    match code_name(code) {
        Some(name) => name,
        None => "code("@ + decimal_text(code as nat) + ")"@,
    }
}

/// A status as text: the code, followed by the message where there is one.
pub open spec fn status_text(code: u16, message: Seq<char>) -> Seq<char> {
    if message.len() == 0 {
        code_text(code)
    } else {
        code_text(code) + ": "@ + message
    }
}

impl Code {
    pub const OK: u16 = 0;

    pub const CANCELLED: u16 = 1;

    pub const UNKNOWN: u16 = 2;

    pub const INVALID_ARGUMENT: u16 = 3;

    pub const DEADLINE_EXCEEDED: u16 = 4;

    pub const NOT_FOUND: u16 = 5;

    pub const ALREADY_EXISTS: u16 = 6;

    pub const PERMISSION_DENIED: u16 = 7;

    pub const RESOURCE_EXHAUSTED: u16 = 8;

    pub const FAILED_PRECONDITION: u16 = 9;

    pub const ABORTED: u16 = 10;

    pub const OUT_OF_RANGE: u16 = 11;

    pub const UNIMPLEMENTED: u16 = 12;

    pub const INTERNAL: u16 = 13;

    pub const UNAVAILABLE: u16 = 14;

    pub const DATA_LOSS: u16 = 15;

    pub const UNAUTHENTICATED: u16 = 16;

    /// The name of a known code, `None` for any other.
    pub fn name(self) -> (name: Option<&'static str>)
        ensures
            match name {
                Some(text) => code_name(self.0) == Some(text@),
                None => code_name(self.0) is None,
            },
    {
        Some(
            match self.0 {
                0 => "ok",
                1 => "cancelled",
                2 => "unknown",
                3 => "invalid_argument",
                4 => "deadline_exceeded",
                5 => "not_found",
                6 => "already_exists",
                7 => "permission_denied",
                8 => "resource_exhausted",
                9 => "failed_precondition",
                10 => "aborted",
                11 => "out_of_range",
                12 => "unimplemented",
                13 => "internal",
                14 => "unavailable",
                15 => "data_loss",
                16 => "unauthenticated",
                _ => return None,
            },
        )
    }

    /// The code as text: its name, or `code(N)`.
    pub fn to_string(&self) -> (text: String)
        ensures
            text@ == code_text(self.0),
    {
        match self.name() {
            Some(name) => String::from_str(name),
            None => {
                let mut text = String::from_str("code(");
                text.append(decimal(self.0 as u64).as_str());
                text.append(")");
                text
            },
        }
    }
}

impl Default for Code {
    fn default() -> (code: Code)
        ensures
            code.0 == Code::OK,
    {
        Code(Code::OK)
    }
}

/// A call outcome: a [`Code`] plus a human-readable detail string. This is
/// what handlers return for failures and what CLOSE frames carry.
#[derive(Clone, PartialEq, Eq, Debug)]
pub struct Status {
    pub code: Code,
    pub message: String,
}

impl View for Status {
    type V = (u16, Seq<char>);

    open spec fn view(&self) -> (u16, Seq<char>) {
        (self.code.0, self.message@)
    }
}

impl Status {
    pub fn new(code: Code, message: &str) -> (status: Status)
        ensures
            status@ == (code.0, message@),
    {
        Status { code, message: String::from_str(message) }
    }

    /// The status of a call that succeeded.
    pub fn ok() -> (status: Status)
        ensures
            status@ == (Code::OK, Seq::<char>::empty()),
    {
        let status = Status::new(Code(Code::OK), "");
        proof {
            reveal_strlit("");
            assert(status.message@ =~= Seq::<char>::empty());
        }
        status
    }

    pub fn is_ok(&self) -> (ok: bool)
        ensures
            ok == (self.code.0 == Code::OK),
    {
        self.code.0 == Code::OK
    }

    /// The status as text: the code, then `: ` and the message if there is one.
    pub fn to_string(&self) -> (text: String)
        ensures
            text@ == status_text(self.code.0, self.message@),
    {
        let mut text = self.code.to_string();
        if !self.message.as_str().is_empty() {
            text.append(": ");
            text.append(self.message.as_str());
        }
        text
    }
}

/// A status is its code and its message.
pub proof fn statuses_are_code_and_message(status: Status)
    ensures
        status@.0 == status.code.0,
        status@.1 == status.message@,
{
}

/// The codes from 0 to 16 have a name and are shown by it; any other is shown
/// by its number.
pub proof fn codes_are_shown(code: u16)
    ensures
        code <= 16 ==> code_name(code) == Some(code_text(code)),
        code > 16 ==> code_name(code) is None && code_text(code) == "code("@ + decimal_text(
            code as nat,
        ) + ")"@,
{
}

/// A status shows its code, and its message behind a colon if it has one.
pub proof fn statuses_are_shown(code: u16, message: Seq<char>)
    ensures
        status_text(code, Seq::empty()) == code_text(code),
        message.len() > 0 ==> status_text(code, message) == code_text(code) + ": "@ + message,
{
}

} // verus!
