//! The error taxonomy: name and identifier parse failures, undecodable entry
//! names, unknown flag tokens, I/O failures annotated with the identity they
//! concern, and the explicit unsupported-operation failure.

use vstd::prelude::*;

use crate::variable_name::Variable;

verus! {

/// Every failure this library reports.
#[derive(Debug)]
pub enum Error {
    /// A parsed variable string holds no `-` separator.
    InvalidVarName { name: String },
    /// The part after the separator is not a valid 128-bit identifier.
    UuidError,
    /// A filesystem entry name is not decodable as text.
    InvalidUTF8,
    /// An attributes line is not a recognized flag token.
    UnknownFlag { token: String },
    /// An underlying read, write, open or list failure, annotated with the
    /// identity being operated on when one is available.
    Io { variable: Option<Variable>, message: String },
    /// The backend cannot support the requested operation at all.
    UnsupportedOperation,
}

} // verus!
