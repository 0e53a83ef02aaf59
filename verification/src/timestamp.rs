//! What the platform's cycle counter can do.

use vstd::prelude::*;

verus! {

/// Properties of the hardware cycle counter, read once at startup.
///
/// A frequency of zero stands for a platform without a usable counter:
/// playback then runs unpaced.
#[derive(Clone, Copy, Debug, PartialEq, Eq, Structural)]
pub struct TimestampProperties {
    frequency: u64,
    end_value: u64,
}

impl TimestampProperties {
    /// Ticks per second, zero where no counter is available.
    pub closed spec fn spec_frequency(&self) -> u64 {
        self.frequency
    }

    /// The tick value at which the counter starts again from zero.
    pub closed spec fn spec_end_value(&self) -> u64 {
        self.end_value
    }

    /// Whether frames can be paced with this counter.
    pub open spec fn spec_is_available(&self) -> bool {
        self.spec_frequency() != 0
    }

    pub fn new(frequency: u64, end_value: u64) -> (properties: Self)
        ensures
            properties.spec_frequency() == frequency,
            properties.spec_end_value() == end_value,
    {
        TimestampProperties { frequency, end_value }
    }

    /// The properties reported where the platform has no counter.
    pub fn unavailable() -> (properties: Self)
        ensures
            properties.spec_frequency() == 0,
            properties.spec_end_value() == 0,
            !properties.spec_is_available(),
    {
        TimestampProperties { frequency: 0, end_value: 0 }
    }

    #[verifier::when_used_as_spec(spec_frequency)]
    pub fn frequency(&self) -> (frequency: u64)
        ensures
            frequency == self.spec_frequency(),
    {
        self.frequency
    }

    #[verifier::when_used_as_spec(spec_end_value)]
    pub fn end_value(&self) -> (end_value: u64)
        ensures
            end_value == self.spec_end_value(),
    {
        self.end_value
    }

    #[verifier::when_used_as_spec(spec_is_available)]
    pub fn is_available(&self) -> (available: bool)
        ensures
            available == self.spec_is_available(),
    {
        self.frequency != 0
    }
}

} // verus!
