use vstd::prelude::*;

verus! {

/// What went wrong.
#[derive(Debug, Clone, Copy, PartialEq, Eq, Structural)]
#[non_exhaustive]
pub enum ErrorKind {
    /// An interface record asks for what cannot be.
    InvalidArgument,
    /// A structural value is not an interface record, or the reverse.
    StructuralError,
    /// The state after an apply is not the expected one.
    VerificationError,
    /// The backend failed to apply.
    PluginFailure,
    /// The library was handed records that it never builds itself.
    Bug,
}

/// An error, with its kind and a description for the operator.
#[derive(Debug)]
pub struct NipartError {
    pub kind: ErrorKind,
    pub msg: String,
}

impl NipartError {
    pub fn new(kind: ErrorKind, msg: String) -> (r: Self)
        ensures
            r.kind == kind,
            r.msg@ == msg@,
    {
        NipartError { kind, msg }
    }

    /// The kind of the error.
    pub fn kind(&self) -> (r: ErrorKind)
        ensures
            r == self.kind,
    {
        self.kind
    }

    /// The description of the error.
    pub fn msg(&self) -> (r: &str)
        ensures
            r@ == self.msg@,
    {
        self.msg.as_str()
    }
}

impl Clone for NipartError {
    fn clone(&self) -> (r: Self)
        ensures
            r.kind == self.kind,
            r.msg@ == self.msg@,
    {
        NipartError { kind: self.kind, msg: self.msg.clone() }
    }
}

} // verus!
