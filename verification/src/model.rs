//! The session's data model: image identities, source formats, enhancement
//! presets, output formats and queue states, with their names and labels.
use vstd::prelude::*;

use std::path::PathBuf;
use uuid::Uuid;

use crate::paths::{borrowed_path, file_name_text, path_file_name, path_of};
use crate::text::{ascii_lower_seq, ascii_lowercase_chars, chars_equal};

verus! {

/// The session file schema this library reads and writes.
pub const CURRENT_SESSION_SCHEMA: u32 = 1;

/// A `uuid` identifier.
#[verifier::external_type_specification]
#[verifier::external_body]
pub struct ExUuid(Uuid);

/// The version number of an identifier (`Uuid::get_version_num`: the high
/// four bits of its seventh byte).
pub uninterp spec fn uuid_version(id: Uuid) -> usize;

/// A random identifier from `Uuid::new_v4`. Trusted: as `uuid` documents
/// and its source shows (it sets the version bits to 4), the identifier is of
/// version 4; its other bits are random, so nothing more is stated.
#[verifier::external_body]
fn random_uuid() -> (id: Uuid)
    ensures
        uuid_version(id) == 4,
{
    Uuid::new_v4()
}

/// The identity of an image in a session.
#[derive(Debug, Clone, Copy, PartialEq, Eq, Hash, PartialOrd, Ord)]
pub struct ImageId(Uuid);

impl ImageId {
    /// The identifier this identity carries.
    pub closed spec fn identifier(self) -> Uuid {
        self.0
    }

    /// A fresh random identity: a version 4 identifier.
    pub fn new() -> (id: ImageId)
        ensures
            uuid_version(id.identifier()) == 4,
    {
        ImageId(random_uuid())
    }

    /// The identity carrying `uuid`.
    pub fn from_uuid(uuid: Uuid) -> (id: ImageId)
        ensures
            id.identifier() == uuid,
    {
        ImageId(uuid)
    }

    /// The identifier this identity carries.
    pub fn as_uuid(self) -> (uuid: Uuid)
        ensures
            uuid == self.identifier(),
    {
        self.0
    }
}

impl Default for ImageId {
    fn default() -> (id: ImageId)
        ensures
            uuid_version(id.identifier()) == 4,
    {
        ImageId::new()
    }
}

/// How the pixels of a decoded image are oriented.
#[derive(Debug, Clone, Copy, PartialEq, Eq, Structural)]
pub enum CanonicalOrientation {
    Normalized,
}

/// A raster format accepted as input.
#[derive(Debug, Clone, Copy, PartialEq, Eq, Structural)]
pub enum RasterFormat {
    Jpeg,
    Png,
    Bmp,
    Tiff,
}

/// The input format of a file extension, compared case-insensitively:
/// `jpg`/`jpeg`, `png`, `bmp`, `tif`/`tiff`.
pub open spec fn raster_format_for_extension(extension: Seq<char>) -> Option<RasterFormat> {
    let lower = ascii_lower_seq(extension);
    if lower == seq!['j', 'p', 'g'] || lower == seq!['j', 'p', 'e', 'g'] {
        Some(RasterFormat::Jpeg)
    } else if lower == seq!['p', 'n', 'g'] {
        Some(RasterFormat::Png)
    } else if lower == seq!['b', 'm', 'p'] {
        Some(RasterFormat::Bmp)
    } else if lower == seq!['t', 'i', 'f'] || lower == seq!['t', 'i', 'f', 'f'] {
        Some(RasterFormat::Tiff)
    } else {
        None
    }
}

/// The display name of a raster format.
pub open spec fn raster_format_label(format: RasterFormat) -> Seq<char> {
    match format {
        RasterFormat::Jpeg => "JPEG"@,
        RasterFormat::Png => "PNG"@,
        RasterFormat::Bmp => "BMP"@,
        RasterFormat::Tiff => "TIFF"@,
    }
}

impl RasterFormat {
    /// The input format named by a file extension, ignoring ASCII case.
    pub fn from_extension(extension: &str) -> (format: Option<RasterFormat>)
        ensures
            format == raster_format_for_extension(extension@),
    {
        let lower = ascii_lowercase_chars(extension);
        let l = lower.as_slice();
        if chars_equal(l, &['j', 'p', 'g']) || chars_equal(l, &['j', 'p', 'e', 'g']) {
            Some(RasterFormat::Jpeg)
        } else if chars_equal(l, &['p', 'n', 'g']) {
            Some(RasterFormat::Png)
        } else if chars_equal(l, &['b', 'm', 'p']) {
            Some(RasterFormat::Bmp)
        } else if chars_equal(l, &['t', 'i', 'f']) || chars_equal(l, &['t', 'i', 'f', 'f']) {
            Some(RasterFormat::Tiff)
        } else {
            None
        }
    }

    /// The display name of this format.
    pub fn label(self) -> (label: &'static str)
        ensures
            label@ == raster_format_label(self),
    {
        match self {
            RasterFormat::Jpeg => "JPEG",
            RasterFormat::Png => "PNG",
            RasterFormat::Bmp => "BMP",
            RasterFormat::Tiff => "TIFF",
        }
    }
}

/// What is known of a decoded source image.
#[derive(Debug, Clone, PartialEq, Eq)]
pub struct ImageMetadata {
    pub width: u32,
    pub height: u32,
    pub channels: u8,
    pub format: RasterFormat,
    pub orientation: CanonicalOrientation,
}

/// An image queued in a session: its identity, location, display name and
/// metadata.
#[derive(Debug, Clone, PartialEq, Eq)]
pub struct SourceImage {
    pub id: ImageId,
    pub path: PathBuf,
    pub display_name: String,
    pub metadata: ImageMetadata,
}

impl SourceImage {
    /// A source image whose display name is taken from its path.
    pub fn new(id: ImageId, path: PathBuf, metadata: ImageMetadata) -> (source: SourceImage)
        ensures
            source.id == id,
            source.path == path,
            source.metadata == metadata,
            source.display_name@ == display_name(path_file_name(borrowed_path(&path))),
            source.display_name@.len() > 0,
            !source.display_name@.contains('/'),
    {
        let display_name = display_name_for_path(path_of(&path));
        SourceImage { id, path, display_name, metadata }
    }
}

/// A scan effect.
#[derive(Debug, Clone, Copy, PartialEq, Eq, Structural)]
pub enum EnhancementPreset {
    Original,
    AdaptiveBlackAndWhite,
    EnhancedColor,
    MagicColor,
}

/// The display name of a preset.
pub open spec fn preset_label_text(preset: EnhancementPreset) -> Seq<char> {
    match preset {
        EnhancementPreset::Original => "Original"@,
        EnhancementPreset::AdaptiveBlackAndWhite => "Adaptive black and white"@,
        EnhancementPreset::EnhancedColor => "Enhanced color"@,
        EnhancementPreset::MagicColor => "Magic color"@,
    }
}

impl EnhancementPreset {
    /// Every preset, in the order the inspector lists them.
    pub const ALL: [EnhancementPreset; 4] = [
        EnhancementPreset::Original,
        EnhancementPreset::AdaptiveBlackAndWhite,
        EnhancementPreset::EnhancedColor,
        EnhancementPreset::MagicColor,
    ];

    /// The display name of this preset.
    pub fn label(self) -> (label: &'static str)
        ensures
            label@ == preset_label_text(self),
    {
        match self {
            EnhancementPreset::Original => "Original",
            EnhancementPreset::AdaptiveBlackAndWhite => "Adaptive black and white",
            EnhancementPreset::EnhancedColor => "Enhanced color",
            EnhancementPreset::MagicColor => "Magic color",
        }
    }
}

/// A raster format written on export.
#[derive(Debug, Clone, Copy, PartialEq, Eq, Structural)]
pub enum OutputFormat {
    Jpeg,
    Png,
    Bmp,
    Tiff,
}

/// The file extension written for an output format.
pub open spec fn output_extension(format: OutputFormat) -> Seq<char> {
    match format {
        OutputFormat::Jpeg => seq!['j', 'p', 'g'],
        OutputFormat::Png => seq!['p', 'n', 'g'],
        OutputFormat::Bmp => seq!['b', 'm', 'p'],
        OutputFormat::Tiff => seq!['t', 'i', 'f', 'f'],
    }
}

/// The display name of an output format.
pub open spec fn output_format_label(format: OutputFormat) -> Seq<char> {
    match format {
        OutputFormat::Jpeg => "JPEG"@,
        OutputFormat::Png => "PNG"@,
        OutputFormat::Bmp => "BMP"@,
        OutputFormat::Tiff => "TIFF"@,
    }
}

impl OutputFormat {
    /// Every output format, in the order the inspector lists them.
    pub const ALL: [OutputFormat; 4] = [
        OutputFormat::Jpeg,
        OutputFormat::Png,
        OutputFormat::Bmp,
        OutputFormat::Tiff,
    ];

    /// The file extension written for this format.
    pub fn extension(self) -> (extension: &'static str)
        ensures
            extension@ == output_extension(self),
    {
        proof {
            reveal_strlit("jpg");
            reveal_strlit("png");
            reveal_strlit("bmp");
            reveal_strlit("tiff");
        }
        match self {
            OutputFormat::Jpeg => "jpg",
            OutputFormat::Png => "png",
            OutputFormat::Bmp => "bmp",
            OutputFormat::Tiff => "tiff",
        }
    }

    /// The display name of this format.
    pub fn label(self) -> (label: &'static str)
        ensures
            label@ == output_format_label(self),
    {
        match self {
            OutputFormat::Jpeg => "JPEG",
            OutputFormat::Png => "PNG",
            OutputFormat::Bmp => "BMP",
            OutputFormat::Tiff => "TIFF",
        }
    }
}

/// Every export can be read back: the extension an output format writes
/// names an input format, the same image format.
pub proof fn lemma_outputs_read_back(format: OutputFormat)
    ensures
        raster_format_for_extension(output_extension(format)) == Some(
            match format {
                OutputFormat::Jpeg => RasterFormat::Jpeg,
                OutputFormat::Png => RasterFormat::Png,
                OutputFormat::Bmp => RasterFormat::Bmp,
                OutputFormat::Tiff => RasterFormat::Tiff,
            },
        ),
{
    assert(ascii_lower_seq(seq!['j', 'p', 'g']) =~= seq!['j', 'p', 'g']);
    assert(ascii_lower_seq(seq!['p', 'n', 'g']) =~= seq!['p', 'n', 'g']);
    assert(ascii_lower_seq(seq!['b', 'm', 'p']) =~= seq!['b', 'm', 'p']);
    assert(ascii_lower_seq(seq!['t', 'i', 'f', 'f']) =~= seq!['t', 'i', 'f', 'f']);
    assert(seq!['j', 'p', 'g'] != seq!['j', 'p', 'e', 'g']);
}

/// How an export is encoded.
#[derive(Debug, Clone, PartialEq, Eq)]
pub struct OutputSettings {
    pub format: OutputFormat,
    pub jpeg_quality: u8,
}

impl Default for OutputSettings {
    fn default() -> (settings: OutputSettings)
        ensures
            settings.format == OutputFormat::Png,
            settings.jpeg_quality == 92,
    {
        OutputSettings { format: OutputFormat::Png, jpeg_quality: 92 }
    }
}

/// Where an image stands in the processing queue.
#[derive(Debug, Clone, Copy, PartialEq, Eq, Structural)]
pub enum QueueStatus {
    NotStarted,
    Loading,
    Ready,
    Previewing,
    Queued,
    Processing,
    Completed,
    Skipped,
    Failed,
    Cancelled,
}

/// The text the page queue shows for a status.
pub open spec fn status_text(status: QueueStatus) -> Seq<char> {
    match status {
        QueueStatus::NotStarted => "Not started"@,
        QueueStatus::Loading => "Loading"@,
        QueueStatus::Ready => "Ready"@,
        QueueStatus::Previewing => "Previewing"@,
        QueueStatus::Queued => "Queued"@,
        QueueStatus::Processing => "Processing"@,
        QueueStatus::Completed => "Completed"@,
        QueueStatus::Skipped => "Skipped"@,
        QueueStatus::Failed => "Failed"@,
        QueueStatus::Cancelled => "Cancelled"@,
    }
}

/// The text the page queue shows for a status.
pub fn status_label(status: QueueStatus) -> (label: &'static str)
    ensures
        label@ == status_text(status),
{
    match status {
        QueueStatus::NotStarted => "Not started",
        QueueStatus::Loading => "Loading",
        QueueStatus::Ready => "Ready",
        QueueStatus::Previewing => "Previewing",
        QueueStatus::Queued => "Queued",
        QueueStatus::Processing => "Processing",
        QueueStatus::Completed => "Completed",
        QueueStatus::Skipped => "Skipped",
        QueueStatus::Failed => "Failed",
        QueueStatus::Cancelled => "Cancelled",
    }
}

/// The name shown for a file: its file name when that is non-empty text,
/// `Untitled image` otherwise.
pub open spec fn display_name(file_name: Option<Seq<char>>) -> Seq<char> {
    match file_name {
        Some(name) => if name.len() > 0 {
            name
        } else {
            "Untitled image"@
        },
        None => "Untitled image"@,
    }
}

/// The name shown for a file, given its final path component.
pub fn display_name_from_file_name(file_name: Option<String>) -> (name: String)
    ensures
        name@ == display_name(
            match file_name {
                Some(n) => Some(n@),
                None => None,
            },
        ),
{
    match file_name {
        Some(name) => if !name.as_str().is_empty() {
            name
        } else {
            "Untitled image".to_owned()
        },
        None => "Untitled image".to_owned(),
    }
}

/// The name shown for a path: its final component, never a parent
/// directory, or `Untitled image` when the path has no UTF-8 final component.
pub fn display_name_for_path(path: &std::path::Path) -> (name: String)
    ensures
        name@ == display_name(path_file_name(path)),
        name@.len() > 0,
        !name@.contains('/'),
{
    proof {
        reveal_strlit("Untitled image");
    }
    let file_name = file_name_text(path);
    display_name_from_file_name(file_name)
}

} // verus!
