//! Verified core of an EFI firmware-variable library: the variable identity
//! model (name plus vendor scope), the textual flag codec, the backend
//! capability traits, the efivarfs path conventions, and the boot-order
//! reconciliation algorithm.

use vstd::prelude::*;

pub mod backend;
pub mod efivarfs;
pub mod error;
pub mod flags;
pub mod guid;
pub mod reconcile;
pub mod store;
pub mod text;
pub mod variable_name;

pub use backend::{VarEnumerator, VarManager, VarReader, VarWriter};
pub use error::Error;
pub use flags::VariableFlags;
pub use variable_name::{Variable, VariableVendor};

verus! {

/// The well-known identifier of the standard EFI vendor namespace,
/// `8be4df61-93ca-11d2-aa0d-00e098032b8c`.
pub const EFI_GUID: u128 = 0x8be4df6193ca11d2aa0d00e098032b8c;

} // verus!
