use std::path::Path;

use scanner_core::geometry::bounded_output_dimensions;
use scanner_core::pipeline::{format_for_extension, source_format};
use scanner_core::{
    check_session_schema, validate_dimensions, CoreError, GeometryError, OutputDimensions,
    RasterFormat, CURRENT_SESSION_SCHEMA, DEFAULT_PREVIEW_MAX_DIMENSION,
};

#[test]
fn dimensions_are_checked_against_the_limits() {
    assert!(validate_dimensions(1200, 800).is_ok());
    assert!(validate_dimensions(100_000, 1_000).is_ok());
    assert!(validate_dimensions(10_000, 10_000).is_ok());
    assert!(matches!(
        validate_dimensions(0, 5),
        Err(CoreError::InvalidDimensions { width: 0, height: 5 })
    ));
    assert!(matches!(
        validate_dimensions(100_001, 1),
        Err(CoreError::AllocationTooLarge { width: 100_001, height: 1 })
    ));
    assert!(matches!(
        validate_dimensions(10_001, 10_000),
        Err(CoreError::AllocationTooLarge { .. })
    ));
    assert!(matches!(
        validate_dimensions(u32::MAX, u32::MAX),
        Err(CoreError::AllocationTooLarge { .. })
    ));
    assert_eq!(DEFAULT_PREVIEW_MAX_DIMENSION, 1_600);
}

#[test]
fn input_formats_come_from_the_extension() {
    assert_eq!(format_for_extension(Some("PNG".to_owned())).unwrap(), RasterFormat::Png);
    match format_for_extension(Some("GIF".to_owned())) {
        Err(CoreError::UnsupportedFormat { extension }) => assert_eq!(extension, " `gif`"),
        other => panic!("unexpected {other:?}"),
    }
    match format_for_extension(None) {
        Err(CoreError::UnsupportedFormat { extension }) => {
            assert_eq!(extension, " without a supported extension")
        }
        other => panic!("unexpected {other:?}"),
    }
    assert_eq!(source_format(Path::new("dir/page.JPEG")).unwrap(), RasterFormat::Jpeg);
    assert!(matches!(
        source_format(Path::new("dir/page.gif")),
        Err(CoreError::UnsupportedFormat { .. })
    ));
    assert!(matches!(
        source_format(Path::new("dir/page")),
        Err(CoreError::UnsupportedFormat { .. })
    ));
}

#[test]
fn output_sizes_are_bounded() {
    assert_eq!(
        bounded_output_dimensions(1200, 800),
        Ok(OutputDimensions { width: 1200, height: 800 })
    );
    assert_eq!(bounded_output_dimensions(0, 800), Err(GeometryError::InvalidOutputDimensions));
    assert_eq!(bounded_output_dimensions(100_001, 1), Err(GeometryError::OutputTooLarge));
    assert_eq!(bounded_output_dimensions(20_000, 20_000), Err(GeometryError::OutputTooLarge));
    assert_eq!(
        bounded_output_dimensions(10_000, 10_000),
        Ok(OutputDimensions { width: 10_000, height: 10_000 })
    );
}

#[test]
fn only_the_current_session_schema_is_accepted() {
    assert!(check_session_schema(CURRENT_SESSION_SCHEMA).is_ok());
    assert!(matches!(
        check_session_schema(CURRENT_SESSION_SCHEMA + 1),
        Err(CoreError::UnsupportedSessionSchema { found: 2, expected: 1 })
    ));
}

#[test]
fn geometry_errors_convert_into_core_errors() {
    let error: CoreError = GeometryError::SelfIntersecting.into();
    assert!(matches!(error, CoreError::Geometry(GeometryError::SelfIntersecting)));
    let io = CoreError::io("opening", std::io::Error::new(std::io::ErrorKind::NotFound, "gone"));
    assert!(matches!(io, CoreError::Io { operation: "opening", .. }));
    let export = CoreError::export_io("linking", std::io::Error::new(std::io::ErrorKind::Other, "x"));
    assert!(matches!(export, CoreError::ExportIo { operation: "linking", .. }));
}

#[test]
fn session_schema_is_enforced() {
    assert!(matches!(
        check_session_schema(CURRENT_SESSION_SCHEMA + 1),
        Err(CoreError::UnsupportedSessionSchema { .. })
    ));
}
