//! The semantic time type of the adapter.
//!
//! Time spans from the configuration and from the wire are kept as whole
//! microseconds, with a sentinel for an unlimited span: an unlimited
//! startup timeout disables the startup deadline. Centralising the
//! representation here keeps the microsecond arithmetic of the timers and
//! of the wire format in one place.

use vstd::prelude::*;

verus! {

/// A non-negative span of time in whole microseconds, or `Infinite`,
/// the sentinel meaning "no limit".
#[derive(Clone, Copy, Debug, PartialEq, Eq, Structural)]
pub enum Seconds {
    Micros(u64),
    Infinite,
}

impl Seconds {
    /// True for every span except the `Infinite` sentinel.
    pub open spec fn is_finite_spec(self) -> bool {
        match self {
            Seconds::Micros(_) => true,
            Seconds::Infinite => false,
        }
    }

    /// The number of microseconds of a finite span; zero for `Infinite`.
    pub open spec fn micros_spec(self) -> u64 {
        match self {
            Seconds::Micros(m) => m,
            Seconds::Infinite => 0,
        }
    }

    /// A span that disables whatever deadline it configures.
    pub open spec fn is_zero_spec(self) -> bool {
        self == Seconds::Micros(0u64)
    }

    pub fn is_finite(&self) -> (r: bool)
        ensures
            r == self.is_finite_spec(),
    {
        match self {
            Seconds::Micros(_) => true,
            Seconds::Infinite => false,
        }
    }

    pub fn is_zero(&self) -> (r: bool)
        ensures
            r == self.is_zero_spec(),
    {
        match self {
            Seconds::Micros(m) => *m == 0,
            Seconds::Infinite => false,
        }
    }

    pub fn micros(&self) -> (r: u64)
        requires
            self.is_finite_spec(),
        ensures
            r == self.micros_spec(),
    {
        match self {
            Seconds::Micros(m) => *m,
            Seconds::Infinite => 0,
        }
    }

    /// The sum of two spans. Anything added to `Infinite` is `Infinite`,
    /// and a finite sum that would not fit in the representation
    /// saturates to `Infinite`: a deadline pushed beyond the largest
    /// representable span can never be reached.
    pub open spec fn plus_spec(self, other: Seconds) -> Seconds {
        if self.is_finite_spec() && other.is_finite_spec()
            && self.micros_spec() + other.micros_spec() <= u64::MAX {
            Seconds::Micros((self.micros_spec() + other.micros_spec()) as u64)
        } else {
            Seconds::Infinite
        }
    }

    pub fn plus(&self, other: &Seconds) -> (r: Seconds)
        ensures
            r == self.plus_spec(*other),
    {
        match (self, other) {
            (Seconds::Micros(a), Seconds::Micros(b)) => {
                match a.checked_add(*b) {
                    Some(sum) => Seconds::Micros(sum),
                    None => Seconds::Infinite,
                }
            },
            _ => Seconds::Infinite,
        }
    }

    /// How much longer `self` is than `shorter`; both must be finite and
    /// `self` at least as long, which is how the startup timer uses it:
    /// the configured startup timeout only ever grows while it matters.
    pub fn minus(&self, shorter: &Seconds) -> (r: u64)
        requires
            self.is_finite_spec(),
            shorter.is_finite_spec(),
            shorter.micros_spec() <= self.micros_spec(),
        ensures
            r == self.micros_spec() - shorter.micros_spec(),
    {
        self.micros() - shorter.micros()
    }
}

} // verus!
