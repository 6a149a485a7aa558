//! A two-part format version.
use vstd::prelude::*;

verus! {

/// A major and minor version pair.
#[derive(PartialEq, Eq, Structural, Clone, Copy, Debug)]
pub struct Version {
    pub major: u8,
    pub minor: u8,
}

impl Version {
    /// Builds a version from its two parts.
    pub fn new(major: u8, minor: u8) -> (r: Version)
        ensures
            r == (Version { major, minor }),
    {
        Version { major, minor }
    }
}

} // verus!
