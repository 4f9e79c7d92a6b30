//! The integer side of document geometry: output dimensions, the safety
//! limits on image size, and the reasons a quadrilateral is refused.
use vstd::prelude::*;

verus! {

/// The largest width or height an image may have.
pub const MAX_IMAGE_DIMENSION: u32 = 100_000;

/// The largest number of pixels an image may have.
pub const MAX_IMAGE_PIXELS: u64 = 100_000_000;

/// The pixel size of a perspective-corrected page.
#[derive(Debug, Clone, Copy, PartialEq, Eq, Structural)]
pub struct OutputDimensions {
    pub width: u32,
    pub height: u32,
}

/// Why a document quadrilateral or its output size was refused.
#[derive(Debug, Clone, Copy, PartialEq, Eq, Structural)]
pub enum GeometryError {
    InvalidBounds,
    NonFinitePoint,
    OutsideBounds,
    DuplicatePoint,
    SelfIntersecting,
    NonConvex,
    Collinear,
    NearZeroArea,
    EdgeTooShort,
    InvalidImageDimensions,
    InvalidOutputDimensions,
    OutputTooLarge,
}

/// Whether a size stays within the safety limits.
pub open spec fn within_limits(width: int, height: int) -> bool {
    width <= MAX_IMAGE_DIMENSION && height <= MAX_IMAGE_DIMENSION && width * height
        <= MAX_IMAGE_PIXELS
}

/// Checks a rounded output size: zero in either direction is invalid, and a
/// size beyond the safety limits is too large; otherwise it is the output
/// size.
pub fn bounded_output_dimensions(width: u64, height: u64) -> (result: Result<
    OutputDimensions,
    GeometryError,
>)
    ensures
        width == 0 || height == 0 ==> result == Err::<OutputDimensions, GeometryError>(
            GeometryError::InvalidOutputDimensions,
        ),
        width > 0 && height > 0 && !within_limits(width as int, height as int) ==> result == Err::<
            OutputDimensions,
            GeometryError,
        >(GeometryError::OutputTooLarge),
        width > 0 && height > 0 && within_limits(width as int, height as int) ==> result == Ok::<
            OutputDimensions,
            GeometryError,
        >(OutputDimensions { width: width as u32, height: height as u32 }),
{
    if width == 0 || height == 0 {
        return Err(GeometryError::InvalidOutputDimensions);
    }
    if width > MAX_IMAGE_DIMENSION as u64 || height > MAX_IMAGE_DIMENSION as u64 {
        return Err(GeometryError::OutputTooLarge);
    }
    proof {
        assert(width * height <= 100_000 * 100_000) by (nonlinear_arith)
            requires
                width <= 100_000,
                height <= 100_000,
        ;
    }
    if width * height > MAX_IMAGE_PIXELS {
        return Err(GeometryError::OutputTooLarge);
    }
    Ok(OutputDimensions { width: width as u32, height: height as u32 })
}

} // verus!
