//! Failures of the dispatch core.
use vstd::prelude::*;

verus! {

/// Why a run could not be set up.
#[derive(Clone, Copy, Debug, PartialEq, Eq, Structural)]
pub enum DispatchError {
    /// The textual device specification is malformed.
    InvalidDeviceSpec,
    /// Devices were requested from a build without accelerator support.
    AcceleratorUnavailable,
    /// Several devices were requested from a build without distributed support.
    UnsupportedTopology,
}

/// The message reported for `e`: the stage that failed, then the cause.
pub open spec fn message_of(e: DispatchError) -> Seq<char> {
    match e {
        DispatchError::InvalidDeviceSpec => "parsing: invalid device specification"@,
        DispatchError::AcceleratorUnavailable =>
            "parsing: accelerator support is not available in this build"@,
        DispatchError::UnsupportedTopology =>
            "resolution: distributed execution is not available in this build"@,
    }
}

impl DispatchError {
    /// A short description naming the stage that failed and the cause.
    pub fn message(&self) -> (r: String)
        ensures
            r@ == message_of(*self),
    {
        match self {
            DispatchError::InvalidDeviceSpec => {
                proof {
                    reveal_strlit("parsing: invalid device specification");
                }
                String::from_str("parsing: invalid device specification")
            },
            DispatchError::AcceleratorUnavailable => {
                proof {
                    reveal_strlit("parsing: accelerator support is not available in this build");
                }
                String::from_str("parsing: accelerator support is not available in this build")
            },
            DispatchError::UnsupportedTopology => {
                proof {
                    reveal_strlit("resolution: distributed execution is not available in this build");
                }
                String::from_str("resolution: distributed execution is not available in this build")
            },
        }
    }
}

} // verus!
