//! The checks that come before decoding: which files are accepted as input,
//! and which image sizes may be allocated.
use vstd::prelude::*;

use std::path::Path;

use crate::error::CoreError;
use crate::geometry::{MAX_IMAGE_DIMENSION, MAX_IMAGE_PIXELS};
use crate::model::{raster_format_for_extension, RasterFormat};
use crate::paths::{extension_text, path_extension};
use crate::text::{ascii_lower_seq, ascii_lowercase_chars, string_from_chars, push_chars};

verus! {

/// The longest side of a preview image unless told otherwise.
pub const DEFAULT_PREVIEW_MAX_DIMENSION: u32 = 1_600;

/// How an image is processed: scaled down for a preview, or at full size.
#[derive(Debug, Clone, Copy, PartialEq, Eq, Structural)]
pub enum ProcessingMode {
    Preview { max_dimension: u32 },
    FullResolution,
}

/// Whether an image of this size may be decoded and processed.
pub open spec fn dimensions_accepted(width: u32, height: u32) -> bool {
    width > 0 && height > 0 && width <= MAX_IMAGE_DIMENSION && height <= MAX_IMAGE_DIMENSION
        && width * height <= MAX_IMAGE_PIXELS
}

/// Checks an image size: an empty side is invalid, and a side or pixel count
/// beyond the safety limits would allocate too much.
pub fn validate_dimensions(width: u32, height: u32) -> (result: Result<(), CoreError>)
    ensures
        result is Ok <==> dimensions_accepted(width, height),
        (width == 0 || height == 0) ==> (result matches Err(CoreError::InvalidDimensions { width: w, height: h }) && w == width && h == height),
        (width > 0 && height > 0 && !dimensions_accepted(width, height)) ==> (result matches Err(CoreError::AllocationTooLarge { width: w, height: h }) && w == width && h == height),
{
    if width == 0 || height == 0 {
        return Err(CoreError::InvalidDimensions { width, height });
    }
    proof {
        assert((width as u64) * (height as u64) <= 0xffff_ffff * 0xffff_ffff) by (nonlinear_arith)
            requires
                width <= 0xffff_ffff,
                height <= 0xffff_ffff,
        ;
    }
    let pixels = (width as u64) * (height as u64);
    if width > MAX_IMAGE_DIMENSION || height > MAX_IMAGE_DIMENSION || pixels > MAX_IMAGE_PIXELS {
        return Err(CoreError::AllocationTooLarge { width, height });
    }
    Ok(())
}

/// The text an unsupported-format error carries: the lowercased extension
/// in backquotes, or a note that there is none.
pub open spec fn unsupported_extension_text(extension: Option<Seq<char>>) -> Seq<char> {
    match extension {
        Some(e) => seq![' ', '`'] + ascii_lower_seq(e) + seq!['`'],
        None => " without a supported extension"@,
    }
}

/// The input format of a file with this extension (compared in lower case),
/// or the unsupported-format error that names the extension.
pub fn format_for_extension(extension: Option<String>) -> (result: Result<RasterFormat, CoreError>)
    ensures
        match extension {
            Some(e) => match raster_format_for_extension(ascii_lower_seq(e@)) {
                Some(f) => result == Ok::<RasterFormat, CoreError>(f),
                None => (result matches Err(CoreError::UnsupportedFormat { extension: text }) && text@ == unsupported_extension_text(Some(e@))),
            },
            None => (result matches Err(CoreError::UnsupportedFormat { extension: text }) && text@ == unsupported_extension_text(None)),
        },
{
    match extension {
        Some(e) => {
            let lower = ascii_lowercase_chars(e.as_str());
            let lower_text = string_from_chars(lower.as_slice());
            match RasterFormat::from_extension(lower_text.as_str()) {
                Some(format) => Ok(format),
                None => {
                    let mut text = String::new();
                    push_chars(&mut text, &[' ', '`']);
                    push_chars(&mut text, lower.as_slice());
                    push_chars(&mut text, &['`']);
                    proof {
                        assert(text@ =~= unsupported_extension_text(Some(e@)));
                    }
                    Err(CoreError::UnsupportedFormat { extension: text })
                },
            }
        },
        None => Err(
            CoreError::UnsupportedFormat { extension: " without a supported extension".to_owned() },
        ),
    }
}

/// The input format of the file at `path`, by its extension (compared in
/// lower case), or the unsupported-format error that names the extension.
pub fn source_format(path: &Path) -> (result: Result<RasterFormat, CoreError>)
    ensures
        match path_extension(path) {
            Some(e) => match raster_format_for_extension(ascii_lower_seq(e)) {
                Some(f) => result == Ok::<RasterFormat, CoreError>(f),
                None => (result matches Err(CoreError::UnsupportedFormat { extension: text }) && text@ == unsupported_extension_text(Some(e))),
            },
            None => (result matches Err(CoreError::UnsupportedFormat { extension: text }) && text@ == unsupported_extension_text(None)),
        },
{
    format_for_extension(extension_text(path))
}

} // verus!
