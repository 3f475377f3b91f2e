use vstd::prelude::*;

verus! {

/// A fatal condition of the provisioning run.  Each variant corresponds to
/// one setup step that cannot be recovered from: the run is aborted with the
/// matching message and no upload is attempted.
#[derive(Clone, Copy, Debug, PartialEq, Eq, Structural)]
pub enum ProvisionError {
    /// The version listing held no entry marked active (or was discarded).
    NoActiveVersion,
    /// The clone call produced no usable draft version number.
    NoDraftVersion,
    /// The ACL creation call produced no usable ACL id.
    NoAclId,
}

impl ProvisionError {
    /// The message the run aborts with for this condition.
    pub fn message(&self) -> (r: &'static str)
        ensures
            *self == ProvisionError::NoActiveVersion ==> r@ == "No version active. Please activate a version and try again."@,
            *self == ProvisionError::NoDraftVersion ==> r@ == "No draft version available. Please activate a version and try again."@,
            *self == ProvisionError::NoAclId ==> r@ == "No acl id available. Please activate a version and try again."@,
    {
        match self {
            ProvisionError::NoActiveVersion => "No version active. Please activate a version and try again.",
            ProvisionError::NoDraftVersion => "No draft version available. Please activate a version and try again.",
            ProvisionError::NoAclId => "No acl id available. Please activate a version and try again.",
        }
    }
}

} // verus!
