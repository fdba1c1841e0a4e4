use vstd::prelude::*;

verus! {

/// Optimistic-concurrency version of a stored entity; every successful update moves it
/// one step forward.
#[derive(Clone, Copy, PartialEq, Eq, Debug, Structural)]
pub struct Version(pub u32);

impl Version {
    /// The version a newly created entity starts at.
    pub fn first() -> (r: Version)
        ensures
            r.0 == 1,
    {
        Version(1)
    }

    /// The version that follows this one.
    pub fn next(self) -> (r: Version)
        requires
            self.0 < u32::MAX,
        ensures
            r.0 == self.0 + 1,
    {
        Version(self.0 + 1)
    }

    pub fn as_u32(self) -> (r: u32)
        ensures
            r == self.0,
    {
        self.0
    }

    pub fn from_u32(value: u32) -> (r: Version)
        ensures
            r.0 == value,
    {
        Version(value)
    }
}

} // verus!
