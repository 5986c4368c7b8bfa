use vstd::prelude::*;

verus! {

/// The two failure kinds of the item service.
#[derive(Clone, Copy, Debug, PartialEq, Eq, Structural)]
pub enum ItemError {
    /// A client-supplied identifier does not parse into the identifier format.
    InvalidIdentifier,
    /// The store could not complete the requested operation.
    StorageError,
}

impl ItemError {
    /// The fixed wire message for each error kind.
    pub fn message(&self) -> (r: &'static str)
        ensures
            *self == ItemError::InvalidIdentifier ==> r@ == "Invalid ObjectId"@,
            *self == ItemError::StorageError ==> r@ == "storage error"@,
    {
        match self {
            ItemError::InvalidIdentifier => "Invalid ObjectId",
            ItemError::StorageError => "storage error",
        }
    }
}

} // verus!
