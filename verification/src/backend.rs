//! The backend capability set: three independent capabilities and one
//! composite one. A concrete backend implements what it can; an operation it
//! cannot support fails with an explicit unsupported-operation error rather
//! than being omitted.

use vstd::prelude::*;

use crate::error::Error;
use crate::flags::VariableFlags;
use crate::variable_name::Variable;

verus! {

/// Enumerating the variable identities currently present, in backend-defined
/// order. Fails wholesale when the listing cannot start; entries whose raw
/// name does not decode are skipped, not reported.
pub trait VarEnumerator {
    fn get_var_names(&self) -> Result<Vec<Variable>, Error>;
}

/// Reading one variable: its raw byte content and its flags.
pub trait VarReader {
    fn read(&self, name: &Variable) -> Result<(Vec<u8>, VariableFlags), Error>;
}

/// Writing and deleting variables. A backend that cannot delete fails with
/// `Error::UnsupportedOperation`, never silently.
pub trait VarWriter {
    fn write(&mut self, name: &Variable, attributes: VariableFlags, value: &[u8]) -> Result<
        (),
        Error,
    >;

    fn delete(&mut self, name: &Variable) -> Result<(), Error>;
}

/// The composite capability callers depend on.
pub trait VarManager: VarEnumerator + VarReader + VarWriter {
}

} // verus!
