//! The efivarfs convention: one directory per variable under a configured
//! root, named by the identity's canonical textual form, holding an
//! `attributes` file (one flag token per line) and a `data` file (the raw
//! payload). This module holds the path and name logic; performing the
//! filesystem calls is the caller's concern.

use vstd::prelude::*;
use vstd::string::*;

use crate::error::Error;
use crate::variable_name::{full_name_seq, Variable};

verus! {

/// The default root directory of the efivarfs filesystem.
pub const EFIVARFS_ROOT: &'static str = "/sys/firmware/efi/vars";

/// The filesystem-backed variable manager: configuration for the efivarfs
/// directory convention.
pub struct SystemManager {
    root: String,
}

/// The directory of one variable under a root.
pub open spec fn var_dir_seq(root: Seq<char>, v: Variable) -> Seq<char> {
    root + "/"@ + full_name_seq(v.name_spec(), v.vendor_spec().guid_spec())
}

impl SystemManager {
    /// The configured root directory.
    pub closed spec fn root_spec(&self) -> Seq<char> {
        self.root@
    }

    /// A manager over the standard efivarfs root.
    pub fn new() -> (r: SystemManager)
        ensures
            r.root_spec() == EFIVARFS_ROOT@,
    {
        SystemManager { root: EFIVARFS_ROOT.to_owned() }
    }

    /// A manager over an explicit root directory.
    pub fn with_root(root: String) -> (r: SystemManager)
        ensures
            r.root_spec() == root@,
    {
        SystemManager { root }
    }

    /// The configured root directory.
    pub fn root(&self) -> (r: &str)
        ensures
            r@ == self.root_spec(),
    {
        self.root.as_str()
    }

    /// The path of the attributes file of one variable.
    pub fn attributes_path(&self, name: &Variable) -> (r: String)
        ensures
            r@ == var_dir_seq(self.root_spec(), *name) + "/attributes"@,
    {
        let mut s = self.var_dir(name);
        s.append("/attributes");
        s
    }

    /// The path of the data file of one variable.
    pub fn data_path(&self, name: &Variable) -> (r: String)
        ensures
            r@ == var_dir_seq(self.root_spec(), *name) + "/data"@,
    {
        let mut s = self.var_dir(name);
        s.append("/data");
        s
    }

    /// The directory of one variable.
    pub fn var_dir(&self, name: &Variable) -> (r: String)
        ensures
            r@ == var_dir_seq(self.root_spec(), *name),
    {
        let mut s = self.root.clone();
        s.append("/");
        let full = name.full_name();
        s.append(full.as_str());
        proof {
            assert(s@ =~= var_dir_seq(self.root_spec(), *name));
        }
        s
    }

    /// Deletion: efivarfs offers no deletion primitive, so this always fails
    /// with the explicit unsupported-operation error and changes nothing.
    pub fn delete(&mut self, _name: &Variable) -> (r: Result<(), Error>)
        ensures
            r matches Err(e) && e is UnsupportedOperation,
            *final(self) == *old(self),
    {
        Err(Error::UnsupportedOperation)
    }
}

} // verus!
