use vstd::prelude::*;

verus! {

/// The verdict of a scope's skip check: whether the step registered under the
/// scope is left out of this run or goes ahead.
#[derive(Debug, Clone, Copy, PartialEq, Eq, Structural)]
pub enum Skip {
    Skip,
    Proceed,
}

impl Skip {
    /// True exactly for [`Skip::Skip`].
    pub fn should_skip(self) -> (skip: bool)
        ensures
            skip == (self == Skip::Skip),
    {
        matches!(self, Skip::Skip)
    }
}

} // verus!
