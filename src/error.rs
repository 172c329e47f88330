use vstd::prelude::*;

verus! {

#[verifier::external_type_specification]
#[verifier::external_body]
pub struct ExIoError(std::io::Error);

/// Error when reading tandem-repeat text.
#[derive(Debug)]
pub struct Error(Box<ErrorKind>);

/// Specific errors that can happen.
#[derive(Debug)]
pub enum ErrorKind {
    /// The underlying source could not be read.
    Io(std::io::Error),
    /// A field could not be converted into an integer.
    Int(core::num::ParseIntError),
    /// A field, given here, is not a floating-point number.
    Float(String),
    /// A data line does not have the expected number of fields.
    Parser(String),
    /// One of the errors above, raised at the given line (counted from 1).
    ReadRecord(u64, Box<ErrorKind>),
}

/// Why a data line could not be decoded.
#[derive(Clone, Copy, Debug, PartialEq, Eq, Structural)]
pub enum Cause {
    Int,
    Float,
    Parser,
}

/// The cause that an error kind of the field decoder stands for.
pub open spec fn cause_of(k: ErrorKind) -> Option<Cause> {
    match k {
        ErrorKind::Int(_) => Some(Cause::Int),
        ErrorKind::Float(_) => Some(Cause::Float),
        ErrorKind::Parser(_) => Some(Cause::Parser),
        _ => None,
    }
}

impl Error {
    pub closed spec fn view_kind(&self) -> ErrorKind {
        *self.0
    }

    pub fn new(kind: ErrorKind) -> (r: Error)
        ensures
            r.view_kind() == kind,
    {
        Error(Box::new(kind))
    }

    /// Return the specific type of this error.
    pub fn kind(&self) -> (r: &ErrorKind)
        ensures
            *r == self.view_kind(),
    {
        &self.0
    }

    /// Unwrap this error into its underlying type.
    pub fn into_kind(self) -> (r: ErrorKind)
        ensures
            r == self.view_kind(),
    {
        *self.0
    }

    /// The error was raised at line `line` for `cause`.
    pub open spec fn raised_at(&self, line: nat, cause: Cause) -> bool {
        match self.view_kind() {
            ErrorKind::ReadRecord(l, k) => l == line && cause_of(*k) == Some(cause),
            _ => false,
        }
    }
}

} // verus!
