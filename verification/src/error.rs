use vstd::prelude::*;

verus! {

/// The failure taxonomy of the library.
#[derive(Clone, Copy, Debug, PartialEq, Eq, Structural)]
pub enum ErrorKind {
    /// Malformed JSON, unknown attribute, type mismatch, missing required
    /// attribute, null for a required attribute, invalid identifier format,
    /// or an invalid model definition.
    InvalidData,
    /// Model not found, record not found for the given key, or no valid
    /// model definitions at all.
    NotFound,
    /// A record for the given key already exists.
    AlreadyExists,
    /// The storage file could not be read or written.
    PermissionDenied,
    /// A resolver dispatch reached a combination the design declares
    /// impossible; only the current request is given up.
    Unreachable,
}

/// An error of the library: a kind plus a human-readable message.
#[derive(Clone, Debug)]
pub struct GusError {
    pub kind: ErrorKind,
    pub message: String,
}

impl GusError {
    /// Builds an error of the given kind with the given message.
    pub fn new(kind: ErrorKind, message: &str) -> (r: GusError)
        ensures
            r.kind == kind,
            r.message@ == message@,
    {
        GusError { kind, message: message.to_owned() }
    }

    /// The message, for callers that need to render the error.
    pub fn to_message(&self) -> (r: String)
        ensures
            r@ == self.message@,
    {
        self.message.clone()
    }
}

} // verus!
