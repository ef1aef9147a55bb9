//! Stable widget identities.

use vstd::prelude::*;

verus! {

/// Opaque, stable identity of a logical widget.
///
/// The caller derives the value from widget context; the store never
/// constructs identities itself. Stability across frames is what gives a
/// widget continuity of state; uniqueness within a frame is the caller's
/// responsibility.
#[derive(Clone, Copy, PartialEq, Eq, Structural, Hash, Debug)]
pub struct Id(u64);

impl Id {
    /// The raw value the identity was built from.
    pub closed spec fn spec_value(self) -> u64 {
        self.0
    }

    /// Wraps a caller-derived value as a widget identity.
    pub fn new(value: u64) -> (r: Id)
        ensures
            r.spec_value() == value,
    {
        Id(value)
    }

    /// The raw value the identity was built from.
    pub fn value(self) -> (r: u64)
        ensures
            r == self.spec_value(),
    {
        self.0
    }
}

} // verus!
