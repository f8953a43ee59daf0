use vstd::prelude::*;

verus! {

/// Reasons why an operation of this library rejects its input.
#[derive(Debug, Clone, Copy, PartialEq, Eq, Structural)]
pub enum QualityError {
    /// A buffer, or the result of a crop, would hold no pixel; a crop
    /// percentage lies outside `1..=100`; or a corner estimate was asked for
    /// with a zero density or a frame too small for the detector's border.
    InvalidDimensions,
    /// Two buffers that must be compared pixel by pixel differ in width or
    /// height.
    DimensionMismatch,
}

} // verus!
