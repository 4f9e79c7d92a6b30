//! Verified core of a document scanner: image-format and naming rules,
//! dimension limits, integer image kernels, the message catalog, edit history
//! and the decisions of the background worker.
pub mod backend;
pub mod catalog;
pub mod effects;
pub mod error;
pub mod export;
pub mod geometry;
pub mod history;
pub mod i18n;
pub mod model;
pub mod navigation;
pub mod paths;
pub mod pipeline;
pub mod preferences;
pub mod queue;
pub mod session;
pub mod tasks;
pub mod text;

pub use error::CoreError;
pub use export::{
    collision_step, output_file_name, safe_stem, CollisionPolicy, CollisionStep, ExportResult,
};
pub use geometry::{GeometryError, OutputDimensions, MAX_IMAGE_DIMENSION, MAX_IMAGE_PIXELS};
pub use i18n::{I18n, Language, LanguagePreference};
pub use model::{
    display_name_for_path, CanonicalOrientation, EnhancementPreset, ImageId, ImageMetadata,
    OutputFormat, OutputSettings, QueueStatus, RasterFormat, SourceImage, CURRENT_SESSION_SCHEMA,
};
pub use pipeline::{validate_dimensions, ProcessingMode, DEFAULT_PREVIEW_MAX_DIMENSION};
pub use session::check_session_schema;
