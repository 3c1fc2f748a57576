//! What can go wrong with a server.

use vstd::prelude::*;
use vstd::string::*;
use crate::json::{Value, ValueV};

verus! {

/// What went wrong with a server.
#[derive(Debug)]
pub enum Error {
    /// It could not be reached, or answered with a failure.
    Http(String),
    /// Its answer was no JSON, or not of the kind that was expected.
    Json(String),
    /// Its answer was not as the protocol has it; with what it said, where it said anything.
    Protocol { message: String, detail: Option<Value> },
    Unauthorized,
    UnsupportedAccount(String),
    NotFound,
}

/// What an [`Error`] stands for.
pub enum ErrorV {
    Http(Seq<char>),
    Json(Seq<char>),
    Protocol { message: Seq<char>, detail: Option<ValueV> },
    Unauthorized,
    UnsupportedAccount(Seq<char>),
    NotFound,
}

impl DeepView for Error {
    type V = ErrorV;

    open spec fn deep_view(&self) -> ErrorV {
        match self {
            Error::Http(s) => ErrorV::Http(s@),
            Error::Json(s) => ErrorV::Json(s@),
            Error::Protocol { message, detail } => ErrorV::Protocol {
                message: message@,
                detail: detail.deep_view(),
            },
            Error::Unauthorized => ErrorV::Unauthorized,
            Error::UnsupportedAccount(s) => ErrorV::UnsupportedAccount(s@),
            Error::NotFound => ErrorV::NotFound,
        }
    }
}

impl ErrorV {
    /// A failure of the protocol with nothing more to tell.
    pub open spec fn protocol(message: Seq<char>) -> ErrorV {
        ErrorV::Protocol { message, detail: None }
    }

    /// The status with which a page tells of the failure.
    pub open spec fn status(self) -> u16 {
        match self {
            ErrorV::Unauthorized => 401,
            ErrorV::NotFound => 404,
            _ => 502,
        }
    }

    /// The failure in words; `detail` is what the server said, as JSON.
    pub open spec fn text(self, detail: Seq<char>) -> Seq<char> {
        match self {
            ErrorV::Http(s) => "http error: "@ + s,
            ErrorV::Json(s) => "json error: "@ + s,
            ErrorV::Protocol { message, detail: d } => "jmap protocol error: "@ + message + match d {
                Some(_) => ": "@ + detail,
                None => Seq::empty(),
            },
            ErrorV::Unauthorized => "authentication failed"@,
            ErrorV::UnsupportedAccount(s) => "account does not support "@ + s,
            ErrorV::NotFound => "not found"@,
        }
    }
}

impl Error {
    /// A failure of the protocol with nothing more to tell.
    pub fn protocol(message: &str) -> (r: Error)
        ensures
            r.deep_view() == ErrorV::protocol(message@),
    {
        Error::Protocol { message: message.to_string(), detail: None }
    }

    /// The status with which a page tells of the failure.
    pub fn status(&self) -> (r: u16)
        ensures
            r == self.deep_view().status(),
    {
        match self {
            Error::Unauthorized => 401,
            Error::NotFound => 404,
            _ => 502,
        }
    }

    /// The failure in words; `detail` is what the server said, as JSON.
    pub fn text(&self, detail: &str) -> (r: String)
        ensures
            r@ == self.deep_view().text(detail@),
    {
        match self {
            Error::Http(s) => {
                let mut out = "http error: ".to_string();
                out.append(s.as_str());
                out
            },
            Error::Json(s) => {
                let mut out = "json error: ".to_string();
                out.append(s.as_str());
                out
            },
            Error::Protocol { message, detail: d } => {
                let mut out = "jmap protocol error: ".to_string();
                out.append(message.as_str());
                if let Some(_) = d {
                    out.append(": ");
                    out.append(detail);
                }
                assert(out@ =~= self.deep_view().text(detail@));
                out
            },
            Error::Unauthorized => "authentication failed".to_string(),
            Error::UnsupportedAccount(s) => {
                let mut out = "account does not support ".to_string();
                out.append(s.as_str());
                out
            },
            Error::NotFound => "not found".to_string(),
        }
    }
}

} // verus!
