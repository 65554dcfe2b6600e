//! # Telling a client why it did not get what it asked for
//!
//! A code it branches on and a message a person reads, which is the split the
//! engine already makes: every error it hands back carries a stable name, and
//! the wording of the message is free to improve without breaking anybody.
//!
//! An engine error keeps the engine's own code, because a caller who asked for
//! an impossible port range wants to read `ports.invalid_range` rather than
//! something this crate invented for it.

use vstd::prelude::*;

use crate::text::joined;

verus! {

/// Why a call could not be answered.
#[derive(Debug, Clone, PartialEq, Eq)]
pub struct Error {
    code: String,
    message: String,
}

/// An error as the schema carries it: the code and the message, both public.
#[derive(Debug, Clone, PartialEq, Eq, Default)]
pub struct WireError {
    pub code: String,
    pub message: String,
}

impl Error {
    /// The stable name, as a sequence of characters.
    pub closed spec fn code_text(&self) -> Seq<char> {
        self.code@
    }

    /// The words for a person, as a sequence of characters.
    pub closed spec fn message_text(&self) -> Seq<char> {
        self.message@
    }

    /// An error this crate is the author of.
    pub fn new(code: &str, message: String) -> (r: Error)
        ensures
            r.code_text() == code@,
            r.message_text() == message@,
    {
        Error { code: String::from_str(code), message }
    }

    /// An engine error, keeping the engine's own name for it and its own words.
    pub fn engine(code: &str, message: String) -> (r: Error)
        ensures
            r.code_text() == code@,
            r.message_text() == message@,
    {
        Self::new(code, message)
    }

    /// A name no scan answers to.
    pub fn no_such_scan(id: &str) -> (r: Error)
        ensures
            r.code_text() == "scan.unknown"@,
            r.message_text() == "no scan is named "@ + id@,
    {
        Self::new("scan.unknown", joined("no scan is named ", id))
    }

    /// A method this build does not have.
    pub fn no_such_method(method: &str) -> (r: Error)
        ensures
            r.code_text() == "rpc.unknown_method"@,
            r.message_text() == "no method named "@ + method@,
    {
        Self::new("rpc.unknown_method", joined("no method named ", method))
    }

    /// A frame that was not the shape the schema says, in the words of
    /// whatever read it.
    pub fn malformed(detail: &str) -> (r: Error)
        ensures
            r.code_text() == "rpc.malformed"@,
            r.message_text() == detail@,
    {
        Self::new("rpc.malformed", String::from_str(detail))
    }

    /// The same error, as a value of its own.
    pub fn copied(&self) -> (r: Error)
        ensures
            r.code_text() == self.code_text(),
            r.message_text() == self.message_text(),
    {
        Self::new(self.code.as_str(), String::from_str(self.message.as_str()))
    }

    /// The stable name for what went wrong.
    pub fn code(&self) -> (r: &str)
        ensures
            r@ == self.code_text(),
    {
        self.code.as_str()
    }

    /// What to show a person.
    pub fn message(&self) -> (r: &str)
        ensures
            r@ == self.message_text(),
    {
        self.message.as_str()
    }

    /// The code and the message on one line, the code first.
    pub fn text(&self) -> (r: String)
        ensures
            r@ == self.code_text() + ": "@ + self.message_text(),
    {
        let mut out = joined(self.code.as_str(), ": ");
        out.append(self.message.as_str());
        out
    }

    /// The error as the schema carries it.
    pub fn to_wire(&self) -> (r: WireError)
        ensures
            r.code@ == self.code_text(),
            r.message@ == self.message_text(),
    {
        WireError { code: self.code.clone(), message: self.message.clone() }
    }
}

} // verus!
