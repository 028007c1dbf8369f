//! Common traits.
use vstd::prelude::*;

verus! {

/// Serialization of a structure into an output, by default a byte vector.
pub trait Serialize<O = Vec<u8>> {
    /// Type of serialization error.
    type Error;

    /// Try to serialize the object.
    fn serialize(&self) -> Result<O, Self::Error>;
}

} // verus!
