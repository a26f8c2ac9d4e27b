use vstd::prelude::*;
use vstd::string::*;
use crate::pub_sub::{join3, ClientId};

verus! {

/// Lifecycle commands for the clients that the supervisor runs.
#[derive(Clone, Debug)]
pub enum Command {
    StartClient { client_id: ClientId },
    KillClient { client_id: ClientId },
    Stop,
}

/// Errors of lifecycle commands, returned to whoever issued them.
#[derive(Clone, Debug)]
pub enum Error {
    /// `Missing(kind, id)`: nothing of this kind has this identity.
    Missing(String, String),
    /// The identity already has an active controller.
    AlreadyActive(String),
    Sensor(String),
    ConcurrencyError(String),
    ThreadJoin,
}

/// The text of `Missing(kind, id)`.
pub open spec fn missing_text(kind: Seq<char>, id: Seq<char>) -> Seq<char> {
    "ID '"@ + id + "' does not exist for "@ + kind
}

/// The text of `AlreadyActive(id)`.
pub open spec fn already_active_text(id: Seq<char>) -> Seq<char> {
    "ID is already in use: "@ + id
}

impl Error {
    pub open spec fn text(&self) -> Seq<char> {
        match self {
            Error::Missing(kind, id) => missing_text(kind@, id@),
            Error::AlreadyActive(id) => already_active_text(id@),
            Error::Sensor(e) => "Measurement error: "@ + e@,
            Error::ConcurrencyError(e) => "Concurrency error: "@ + e@,
            Error::ThreadJoin => "Could not join thread"@,
        }
    }

    /// The error rendered for the command issuer.
    pub fn message(&self) -> (r: String)
        ensures
            r@ == self.text(),
    {
        match self {
            Error::Missing(kind, id) => join3("ID '", id.as_str(), "' does not exist for ").concat(kind.as_str()),
            Error::AlreadyActive(id) => String::from_str("ID is already in use: ").concat(id.as_str()),
            Error::Sensor(e) => String::from_str("Measurement error: ").concat(e.as_str()),
            Error::ConcurrencyError(e) => String::from_str("Concurrency error: ").concat(e.as_str()),
            Error::ThreadJoin => String::from_str("Could not join thread"),
        }
    }

    /// A one-line summary of the error kind.
    pub fn description(&self) -> (r: &'static str)
        ensures
            r@ == match self {
                Error::Missing(_, _) => "Requested service does not exist."@,
                Error::AlreadyActive(_) => "ID is already in use."@,
                Error::Sensor(_) => "Measurement error."@,
                Error::ConcurrencyError(_) => "Concurrency error"@,
                Error::ThreadJoin => "Error joining thread."@,
            },
    {
        match self {
            Error::Missing(_, _) => "Requested service does not exist.",
            Error::AlreadyActive(_) => "ID is already in use.",
            Error::Sensor(_) => "Measurement error.",
            Error::ConcurrencyError(_) => "Concurrency error",
            Error::ThreadJoin => "Error joining thread.",
        }
    }
}

} // verus!
