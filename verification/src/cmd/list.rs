use vstd::prelude::*;

verus! {

/// List available aiken versions.
pub struct Args {
    /// show installed versions
    pub installed: bool,
}

} // verus!
