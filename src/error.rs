//! The error of parsing.

use vstd::prelude::*;

verus! {

/// The error of parsing a network.
#[derive(Clone, Debug, PartialEq, Eq, Hash, PartialOrd, Ord)]
pub enum Error {
    /// The text could not be read; the message says why.
    ParseError(String),
}

/// The error of parsing a network (the same type as `Error`).
pub type NetAddrError = Error;

/// The message when the text has no `/` or space between address and mask.
pub const NO_SPLIT: &'static str = "could not split provided input";

/// The message when the address is not an IPv4 address.
pub const INVALID_V4: &'static str = "invalid IPv4 address syntax";

/// The message when the address is not an IPv6 address.
pub const INVALID_V6: &'static str = "invalid IPv6 address syntax";

/// What the text of an error starts with.
pub const ERROR_PREFIX: &'static str = "unable to parse address: ";

impl Error {
    /// The message the error carries.
    pub open spec fn message(&self) -> Seq<char> {
        match self {
            Error::ParseError(m) => m@,
        }
    }

    /// An error with message `m`.
    pub fn parse_error(m: &str) -> (r: Error)
        ensures
            r.message() == m@,
    {
        Error::ParseError(String::from_str(m))
    }

    /// The text of the error: `unable to parse address: ` and the message.
    pub fn to_string(&self) -> (r: String)
        ensures
            r@ == ERROR_PREFIX@ + self.message(),
    {
        match self {
            Error::ParseError(m) => {
                let mut r = String::from_str(ERROR_PREFIX);
                r.append(m.as_str());
                r
            },
        }
    }
}

} // verus!
