//! The errors of loading, processing, exporting and session handling.
use vstd::prelude::*;

use std::io;

use crate::geometry::GeometryError;

verus! {

/// An I/O error from the standard library.
#[verifier::external_type_specification]
#[verifier::external_body]
pub struct ExIoError(io::Error);

/// Why an operation of the scanner failed.
#[derive(Debug)]
pub enum CoreError {
    UnsupportedFormat { extension: String },
    Io { operation: &'static str, source: io::Error },
    Decode { message: String },
    InvalidDimensions { width: u32, height: u32 },
    AllocationTooLarge { width: u32, height: u32 },
    Geometry(GeometryError),
    InvalidParameter { field: &'static str, reason: String },
    InvalidOutputDimensions { width: u32, height: u32 },
    Encode { message: String },
    OutputExists,
    ExportIo { operation: &'static str, source: io::Error },
    UnsupportedSessionSchema { found: u32, expected: u32 },
    SessionEncode { message: String },
    SessionDecode { message: String },
}

impl CoreError {
    /// An I/O failure while reading a source image during `operation`.
    pub fn io(operation: &'static str, source: io::Error) -> (error: CoreError)
        ensures
            error == (CoreError::Io { operation, source }),
    {
        CoreError::Io { operation, source }
    }

    /// An I/O failure while writing an export during `operation`.
    pub fn export_io(operation: &'static str, source: io::Error) -> (error: CoreError)
        ensures
            error == (CoreError::ExportIo { operation, source }),
    {
        CoreError::ExportIo { operation, source }
    }
}

impl From<GeometryError> for CoreError {
    fn from(error: GeometryError) -> (converted: CoreError)
        ensures
            converted == CoreError::Geometry(error),
    {
        CoreError::Geometry(error)
    }
}

impl vstd::std_specs::convert::FromSpecImpl<GeometryError> for CoreError {
    open spec fn obeys_from_spec() -> bool {
        true
    }

    open spec fn from_spec(error: GeometryError) -> CoreError {
        CoreError::Geometry(error)
    }
}

} // verus!
