//! Why a configuration is turned down.

use vstd::prelude::*;

verus! {

/// A configuration that no simulation can be built from. It is reported when
/// a value is constructed, never while a simulation runs.
#[derive(Debug, Clone, Copy, PartialEq, Eq, Structural)]
pub enum InvalidConfiguration {
    /// The cooperator frequency does not lie between 0.0 and 1.0.
    CooperatorFrequency,
    /// A lattice dimension is zero or negative, or the lattice would hold
    /// more sites than `i32::MAX`.
    Dimension,
}

impl InvalidConfiguration {
    /// A sentence that says what is wrong.
    pub fn message(&self) -> (text: &'static str)
        ensures
            *self is CooperatorFrequency ==> text@ == "cooperator_frequence must lie between 0.0 and 1.0"@,
            *self is Dimension ==> text@ == "lattice dimensions must be positive and hold at most i32::MAX sites"@,
    {
        match self {
            InvalidConfiguration::CooperatorFrequency => {
                "cooperator_frequence must lie between 0.0 and 1.0"
            },
            InvalidConfiguration::Dimension => {
                "lattice dimensions must be positive and hold at most i32::MAX sites"
            },
        }
    }
}

} // verus!
