use vstd::prelude::*;

verus! {

/// A version of the store's on-disk format: major, minor and build numbers.
#[derive(Debug, PartialEq, Eq, Structural, Clone, Copy)]
pub struct Version {
    pub major: u8,
    pub minor: u8,
    pub build: u8,
}

pub const VERSION_MAJOR: u8 = 0;

pub const VERSION_MINOR: u8 = 1;

pub const VERSION_BUILD: u8 = 0;

/// The version that this library writes.
pub open spec fn current_version() -> Version {
    Version { major: VERSION_MAJOR, minor: VERSION_MINOR, build: VERSION_BUILD }
}

/// The running version `running` opens a store written by `stored`: the major
/// numbers are equal and `stored` is not newer in minor and build.
pub open spec fn accepts(running: Version, stored: Version) -> bool {
    &&& stored.major == running.major
    &&& stored.minor < running.minor || (stored.minor == running.minor && stored.build
        <= running.build)
}

impl Version {
    pub fn new(major: u8, minor: u8, build: u8) -> (r: Version)
        ensures
            r == (Version { major, minor, build }),
    {
        Version { major, minor, build }
    }

    /// The version that this library writes.
    pub fn current() -> (r: Version)
        ensures
            r == current_version(),
    {
        Version { major: VERSION_MAJOR, minor: VERSION_MINOR, build: VERSION_BUILD }
    }

    /// Whether this running version opens a store written by `other`.
    pub fn is_compatible(&self, other: &Version) -> (r: bool)
        ensures
            r == accepts(*self, *other),
    {
        other.major == self.major && (other.minor < self.minor || (other.minor == self.minor
            && other.build <= self.build))
    }
}

/// A store whose major version differs from the running one is refused.
pub proof fn lemma_major_mismatch_refused(stored: Version)
    requires
        stored.major != current_version().major,
    ensures
        !accepts(current_version(), stored),
{
}

} // verus!
