use vstd::prelude::*;

verus! {

/// The error returned when two mappings cannot be combined by key.
#[derive(Debug, Clone, Copy, PartialEq, Eq)]
pub enum CoalignError {
    /// The key sets of the two mappings do not line up.
    IncompatibleKeys,
}

impl CoalignError {
    /// The text that describes the error.
    pub fn message(&self) -> (s: String)
        ensures
            s@ == "Cannot add two VectorMappings with incompatible keys"@,
    {
        match self {
            CoalignError::IncompatibleKeys => "Cannot add two VectorMappings with incompatible keys".to_owned(),
        }
    }
}

} // verus!
