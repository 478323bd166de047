//! Branch version numbers.

use vstd::prelude::*;

verus! {

/// The position of a version in the history of a branch.
#[derive(Debug, Clone, Copy, PartialEq, Eq, Hash, Structural)]
pub struct VersionNumber(pub u32);

impl VersionNumber {
    /// The number this value stands for.
    pub open spec fn number(self) -> int {
        self.0 as int
    }

    /// The next version number. The successor of the largest number is zero.
    #[must_use]
    pub fn increment(self) -> (next: Self)
        ensures
            next.number() == if self.number() == u32::MAX { 0 } else { self.number() + 1 },
    {
        match self.0.checked_add(1) {
            Some(n) => Self(n),
            None => Self(0),
        }
    }

    /// The previous version number. The predecessor of zero is zero.
    #[must_use]
    pub fn decrement(self) -> (previous: Self)
        ensures
            previous.number() == if self.number() == 0 { 0 } else { self.number() - 1 },
    {
        match self.0.checked_sub(1) {
            Some(n) => Self(n),
            None => Self(0),
        }
    }
}

impl VersionNumber {
    /// The number as a database stores it, unless it is too great for a
    /// signed 32-bit integer.
    pub fn to_sql(self) -> (stored: Option<i32>)
        ensures
            stored is Some <==> self.number() <= i32::MAX,
            stored matches Some(stored) ==> stored == self.number(),
    {
        if self.0 <= 0x7fff_ffff {
            Some(self.0 as i32)
        } else {
            None
        }
    }

    /// The version number that a database stores as `stored`, unless that is
    /// negative.
    pub fn from_sql(stored: i32) -> (version: Option<Self>)
        ensures
            version is Some <==> stored >= 0,
            version matches Some(version) ==> version.number() == stored,
    {
        if stored >= 0 {
            Some(Self(stored as u32))
        } else {
            None
        }
    }
}

impl Default for VersionNumber {
    fn default() -> (zero: Self)
        ensures
            zero.number() == 0,
    {
        Self(0)
    }
}

} // verus!
