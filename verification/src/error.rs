//! The station's error type.

use vstd::prelude::*;
use anyhow::Error as AnyError;

verus! {

/// The error of another library that the station passes on unchanged
/// (`anyhow::Error`); it is only carried, never inspected.
#[verifier::external_type_specification]
#[verifier::external_body]
pub struct ExAnyhowError(AnyError);

/// Errors of the station.
#[derive(Debug)]
pub enum Error {
    /// A plain message.
    Message(String),
    /// A failure of a hardware or network interface.
    Interface { msg: String },
    /// The working directory is not a station.
    BadWorkstation(String),
    /// An error raised by a library underneath.
    Anyhow(AnyError),
}

/// Results of the station.
pub type Result<T> = std::result::Result<T, Error>;

impl Error {
    /// The text that describes the error.
    pub open spec fn text(&self) -> Seq<char> {
        match self {
            Error::Message(m) => "wms error - "@ + m@,
            Error::Interface { msg } => "interface - "@ + msg@,
            Error::BadWorkstation(m) => "working station error - "@ + m@,
            Error::Anyhow(_) => "anyhow error"@,
        }
    }

    /// The text that describes the error, as the station shows it.
    pub fn message(&self) -> (s: String)
        ensures
            s@ == self.text(),
    {
        match self {
            Error::Message(m) => String::from_str("wms error - ").concat(m.as_str()),
            Error::Interface { msg } => String::from_str("interface - ").concat(msg.as_str()),
            Error::BadWorkstation(m) => String::from_str("working station error - ").concat(
                m.as_str(),
            ),
            Error::Anyhow(_) => String::from_str("anyhow error"),
        }
    }
}

/// The error for a directory that is not a working station.
pub fn bad_workstation(msg: String) -> (e: Error)
    ensures
        e == Error::BadWorkstation(msg),
{
    Error::BadWorkstation(msg)
}

} // verus!
