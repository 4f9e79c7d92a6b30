use std::path::Path;

use scanner_core::export::{
    check_jpeg_quality, check_reopened_dimensions, encoder_quality, export_stem,
    export_stem_for_path,
};
use scanner_core::{
    collision_step, output_file_name, safe_stem, CollisionPolicy, CollisionStep, CoreError,
    OutputDimensions, OutputFormat,
};

#[test]
fn stems_lose_separators_and_control_characters() {
    assert_eq!(safe_stem("page"), "page");
    assert_eq!(safe_stem("a/b\\c\u{7}d\u{85}"), "a_b_c_d_");
    assert_eq!(safe_stem(""), "scan");
    assert_eq!(safe_stem("päge ü"), "päge ü");
}

#[test]
fn numbered_names_follow_the_first() {
    assert_eq!(output_file_name("page", OutputFormat::Png, 0), "page.png");
    assert_eq!(output_file_name("page", OutputFormat::Png, 1), "page (1).png");
    assert_eq!(output_file_name("page", OutputFormat::Jpeg, 12), "page (12).jpg");
    assert_eq!(output_file_name("a/b", OutputFormat::Tiff, 4294967295), "a_b (4294967295).tiff");
    assert_eq!(output_file_name("", OutputFormat::Bmp, 0), "scan.bmp");
}

#[test]
fn collisions_rename_or_fail_by_policy() {
    assert_eq!(collision_step(CollisionPolicy::AutoRename, 0, false), CollisionStep::UseCurrent);
    assert_eq!(collision_step(CollisionPolicy::FailIfExists, 0, false), CollisionStep::UseCurrent);
    assert_eq!(collision_step(CollisionPolicy::FailIfExists, 0, true), CollisionStep::GiveUp);
    assert_eq!(collision_step(CollisionPolicy::AutoRename, 0, true), CollisionStep::TryAttempt(1));
    assert_eq!(collision_step(CollisionPolicy::FailIfExists, 3, true), CollisionStep::TryAttempt(4));
    assert_eq!(collision_step(CollisionPolicy::AutoRename, u32::MAX, true), CollisionStep::GiveUp);
}

#[test]
fn export_stems_fall_back_to_scan() {
    assert_eq!(export_stem(Some("page".to_owned())), "page");
    assert_eq!(export_stem(Some(String::new())), "scan");
    assert_eq!(export_stem(None), "scan");
    assert_eq!(export_stem_for_path(Path::new("/in/page.png")), "page");
    assert_eq!(export_stem_for_path(Path::new("/")), "scan");
}

#[test]
fn quality_zero_is_refused_and_encoder_quality_is_clamped() {
    assert!(matches!(
        check_jpeg_quality(0),
        Err(CoreError::InvalidParameter { field: "jpeg_quality", .. })
    ));
    assert!(check_jpeg_quality(1).is_ok());
    assert!(check_jpeg_quality(255).is_ok());
    assert_eq!(encoder_quality(0), 1);
    assert_eq!(encoder_quality(92), 92);
    assert_eq!(encoder_quality(200), 100);
}

#[test]
fn reopened_size_must_match() {
    let expected = OutputDimensions { width: 24, height: 16 };
    assert!(check_reopened_dimensions(expected, 24, 16).is_ok());
    assert!(matches!(
        check_reopened_dimensions(expected, 24, 15),
        Err(CoreError::InvalidOutputDimensions { width: 24, height: 15 })
    ));
}

#[test]
fn quality_zero_names_the_jpeg_quality_field() {
    assert!(matches!(
        check_jpeg_quality(0),
        Err(CoreError::InvalidParameter { field: "jpeg_quality", .. })
    ));
}

#[test]
fn export_stems_are_the_stem_not_the_file_name() {
    assert_eq!(export_stem_for_path(Path::new("/in/page.png")), "page");
    assert_eq!(export_stem_for_path(Path::new("/in/archive.tar.gz")), "archive.tar");
}
