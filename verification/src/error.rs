//! Classified failures of remote sessions.

use vstd::prelude::*;
use vstd::string::StringExecFns;

verus! {

/// What went wrong with a remote command, sorted by where the fault lies:
/// the transport, the credentials, local name resolution, or local I/O.
#[derive(Debug)]
pub enum SSHError {
    IO(String),
    Connection(String),
    DNS(String),
    Authentication(String),
}

/// The operator-facing description of an error, as a sequence of characters.
pub open spec fn spec_error_message(e: SSHError) -> Seq<char> {
    match e {
        SSHError::IO(m) => "I/O Error: "@ + m@,
        SSHError::Connection(m) => "Connection Error: "@ + m@,
        SSHError::DNS(m) => "DNS Error: "@ + m@,
        SSHError::Authentication(m) => "Authentication Error: "@ + m@,
    }
}

impl SSHError {
    /// The operator-facing description: a category label followed by the
    /// detail text.
    pub fn message(&self) -> (r: String)
        ensures
            r@ == spec_error_message(*self),
    {
        match self {
            SSHError::IO(m) => {
                let mut s = String::from_str("I/O Error: ");
                s.append(m.as_str());
                s
            },
            SSHError::Connection(m) => {
                let mut s = String::from_str("Connection Error: ");
                s.append(m.as_str());
                s
            },
            SSHError::DNS(m) => {
                let mut s = String::from_str("DNS Error: ");
                s.append(m.as_str());
                s
            },
            SSHError::Authentication(m) => {
                let mut s = String::from_str("Authentication Error: ");
                s.append(m.as_str());
                s
            },
        }
    }
}

} // verus!
