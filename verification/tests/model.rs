use std::path::{Path, PathBuf};

use scanner_core::model::{status_label, ImageMetadata};
use scanner_core::{
    display_name_for_path, CanonicalOrientation, EnhancementPreset, ImageId, OutputFormat,
    OutputSettings, QueueStatus, RasterFormat, SourceImage,
};

#[test]
fn path_display_name_does_not_include_parent_directories() {
    let path = PathBuf::from("/private/source/page.png");
    assert_eq!(display_name_for_path(&path), "page.png");
}

#[test]
fn paths_without_a_file_name_are_untitled() {
    assert_eq!(display_name_for_path(Path::new("/")), "Untitled image");
    assert_eq!(display_name_for_path(Path::new("folder/..")), "Untitled image");
    assert_eq!(display_name_for_path(Path::new("scan.tiff/.")), "scan.tiff");
}

#[test]
fn extensions_are_matched_without_case() {
    assert_eq!(RasterFormat::from_extension("JPG"), Some(RasterFormat::Jpeg));
    assert_eq!(RasterFormat::from_extension("jpeg"), Some(RasterFormat::Jpeg));
    assert_eq!(RasterFormat::from_extension("Png"), Some(RasterFormat::Png));
    assert_eq!(RasterFormat::from_extension("bmp"), Some(RasterFormat::Bmp));
    assert_eq!(RasterFormat::from_extension("TIF"), Some(RasterFormat::Tiff));
    assert_eq!(RasterFormat::from_extension("tiff"), Some(RasterFormat::Tiff));
    assert_eq!(RasterFormat::from_extension("gif"), None);
    assert_eq!(RasterFormat::from_extension(""), None);
    assert_eq!(RasterFormat::from_extension("jpgx"), None);
}

#[test]
fn formats_have_labels_and_extensions() {
    assert_eq!(RasterFormat::Tiff.label(), "TIFF");
    assert_eq!(OutputFormat::Jpeg.extension(), "jpg");
    assert_eq!(OutputFormat::Tiff.extension(), "tiff");
    assert_eq!(OutputFormat::Bmp.label(), "BMP");
    assert_eq!(EnhancementPreset::AdaptiveBlackAndWhite.label(), "Adaptive black and white");
    assert_eq!(EnhancementPreset::ALL.len(), 4);
    assert_eq!(OutputFormat::ALL.len(), 4);
    let read_back = [RasterFormat::Jpeg, RasterFormat::Png, RasterFormat::Bmp, RasterFormat::Tiff];
    for (format, expected) in OutputFormat::ALL.into_iter().zip(read_back) {
        assert_eq!(RasterFormat::from_extension(format.extension()), Some(expected));
    }
}

#[test]
fn output_settings_default_to_png() {
    let settings = OutputSettings::default();
    assert_eq!(settings.format, OutputFormat::Png);
    assert_eq!(settings.jpeg_quality, 92);
}

#[test]
fn queue_statuses_have_labels() {
    assert_eq!(status_label(QueueStatus::NotStarted), "Not started");
    assert_eq!(status_label(QueueStatus::Cancelled), "Cancelled");
}

#[test]
fn source_images_take_their_name_from_the_path() {
    let metadata = ImageMetadata {
        width: 10,
        height: 20,
        channels: 3,
        format: RasterFormat::Png,
        orientation: CanonicalOrientation::Normalized,
    };
    let id = ImageId::new();
    let source = SourceImage::new(id, PathBuf::from("pages/first.png"), metadata.clone());
    assert_eq!(source.display_name, "first.png");
    assert_eq!(source.id, id);
    assert_eq!(source.metadata, metadata);
    assert_eq!(ImageId::from_uuid(id.as_uuid()), id);
    assert_ne!(ImageId::new(), ImageId::new());
}

#[test]
fn fresh_identities_are_version_four() {
    let id = ImageId::new();
    assert_eq!(id.as_uuid().get_version_num(), 4);
    assert_ne!(ImageId::new(), id);
}

#[test]
fn display_names_take_the_final_component_not_the_stem() {
    assert_eq!(display_name_for_path(Path::new("/in/page.png")), "page.png");
    assert_eq!(display_name_for_path(Path::new("page.tar.gz")), "page.tar.gz");
}
