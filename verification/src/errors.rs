use vstd::prelude::*;

verus! {

/// The failure taxonomy of the store.
///
/// `remove` on an absent key is a successful no-op, never an error, and a
/// `get` of an absent key reports absence as `Ok(None)`: absence is a
/// first-class outcome here, not a failure.
#[derive(Clone, Copy, Debug, PartialEq, Eq, Structural)]
pub enum KVError {
    /// The database connection could not be established or used.
    Connection,
    /// A storage statement failed and the enclosing transaction was rolled back.
    Statement,
    /// The stored bytes do not match the layout the requested type expects.
    Deserialize,
}

} // verus!
