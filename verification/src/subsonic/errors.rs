//! What a Subsonic client is told when a request fails.

use vstd::prelude::*;

use crate::text::concat3;

verus! {

/// The kinds of failure that the protocol numbers.
#[derive(Clone, Copy, Debug, PartialEq, Eq, Structural)]
pub enum SubsonicErrorCode {
    Generic,
    MissingParameter,
    WrongAuth,
    NotFound,
}

/// The number of a kind of failure.
pub open spec fn code_number(code: SubsonicErrorCode) -> int {
    match code {
        SubsonicErrorCode::Generic => 0,
        SubsonicErrorCode::MissingParameter => 10,
        SubsonicErrorCode::WrongAuth => 40,
        SubsonicErrorCode::NotFound => 70,
    }
}

impl SubsonicErrorCode {
    /// The number of this kind of failure.
    pub fn number(self) -> (r: i64)
        ensures
            r == code_number(self),
    {
        match self {
            SubsonicErrorCode::Generic => 0,
            SubsonicErrorCode::MissingParameter => 10,
            SubsonicErrorCode::WrongAuth => 40,
            SubsonicErrorCode::NotFound => 70,
        }
    }
}

/// A failure with what to say about it.
#[derive(Debug)]
pub struct SubsonicError {
    pub code: SubsonicErrorCode,
    pub message: String,
}

impl SubsonicError {
    /// Whether this is a failure of some kind with some message.
    pub open spec fn says(self, code: SubsonicErrorCode, message: Seq<char>) -> bool {
        self.code == code && self.message@ == message
    }

    /// The user or the token is wrong.
    pub fn wrong_auth() -> (r: Self)
        ensures
            r.says(SubsonicErrorCode::WrongAuth, "Wrong username or password"@),
    {
        SubsonicError {
            code: SubsonicErrorCode::WrongAuth,
            message: "Wrong username or password".to_owned(),
        }
    }

    /// A parameter is not there.
    pub fn missing_param(name: &str) -> (r: Self)
        ensures
            r.says(
                SubsonicErrorCode::MissingParameter,
                "Required parameter '"@ + name@ + "' is missing"@,
            ),
    {
        SubsonicError {
            code: SubsonicErrorCode::MissingParameter,
            message: concat3("Required parameter '", name, "' is missing"),
        }
    }

    /// A parameter is there and cannot be read.
    pub fn bad_param(name: &str) -> (r: Self)
        ensures
            r.says(
                SubsonicErrorCode::MissingParameter,
                "Invalid value for parameter '"@ + name@ + "'"@,
            ),
    {
        SubsonicError {
            code: SubsonicErrorCode::MissingParameter,
            message: concat3("Invalid value for parameter '", name, "'"),
        }
    }

    /// There is no such thing.
    pub fn not_found(what: &str) -> (r: Self)
        ensures
            r.says(SubsonicErrorCode::NotFound, what@ + " not found"@),
    {
        SubsonicError {
            code: SubsonicErrorCode::NotFound,
            message: crate::text::concat(what, " not found"),
        }
    }

    /// There is no such endpoint.
    pub fn unsupported(endpoint: &str) -> (r: Self)
        ensures
            r.says(
                SubsonicErrorCode::NotFound,
                "Endpoint '"@ + endpoint@ + "' is not supported by this server"@,
            ),
    {
        SubsonicError {
            code: SubsonicErrorCode::NotFound,
            message: concat3("Endpoint '", endpoint, "' is not supported by this server"),
        }
    }

    /// Something else went wrong.
    pub fn internal(msg: &str) -> (r: Self)
        ensures
            r.says(SubsonicErrorCode::Generic, msg@),
    {
        SubsonicError { code: SubsonicErrorCode::Generic, message: msg.to_owned() }
    }
}

/// The codes are those of the protocol.
pub proof fn codes_are_those_of_the_protocol(code: SubsonicErrorCode)
    ensures
        code is Generic <==> code_number(code) == 0,
        code is MissingParameter <==> code_number(code) == 10,
        code is WrongAuth <==> code_number(code) == 40,
        code is NotFound <==> code_number(code) == 70,
{
}

/// An error has the code and the message that it says.
pub proof fn errors_say_code_and_message(
    e: SubsonicError,
    code: SubsonicErrorCode,
    message: Seq<char>,
)
    requires
        e.says(code, message),
    ensures
        e.code == code,
        e.message@ == message,
{
}

} // verus!
