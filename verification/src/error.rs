//! The ways in which a load can fail. Every one of them is fatal.

use vstd::prelude::*;

verus! {

/// A feature of the image that the loader does not implement.
#[derive(Clone, Copy, Debug, PartialEq, Eq, Structural)]
pub enum Feature {
    /// The image carries a `PT_DYNAMIC` segment and needs an interpreter.
    DynamicLinking,
}

impl Feature {
    /// The name under which the feature is reported.
    pub fn name(&self) -> (r: &'static str)
        ensures
            r@ == "dynamic-linking"@,
    {
        match self {
            Feature::DynamicLinking => "dynamic-linking",
        }
    }
}

/// Why a load stopped.
#[derive(Clone, Copy, Debug, PartialEq, Eq, Structural)]
pub enum LoadError {
    /// The header or the program-header table fails structural validation.
    MalformedImage,
    /// The object type is not `ET_EXEC`.
    UnsupportedType,
    /// The image asks for something the loader does not implement.
    UnsupportedFeature(Feature),
    /// The image has no `PT_LOAD` segment.
    NoLoadableSegments,
    /// The address span could not be reserved.
    ReservationFailed { errno: i32 },
    /// The fixed mapping of one segment failed.
    SegmentMapFailed { segment_index: usize, errno: i32 },
    /// Control came back after the transfer to the entry point.
    UnexpectedReturn,
}

} // verus!
