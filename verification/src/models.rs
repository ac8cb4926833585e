//! The shared domain records and their mathematical views.
use std::collections::BTreeMap;
use vstd::prelude::*;
use crate::text::{strings_view, opt_view};

verus! {

/// The kind of media a format belongs to.
#[derive(Debug, Clone, Copy, PartialEq, Eq, Structural)]
pub enum MediaCategory {
    Image,
    Video,
    Audio,
    Document,
}

/// A file type (container) of the catalogue.
#[derive(Debug, Clone)]
pub struct FormatDefinition {
    pub id: String,
    pub display_name: String,
    pub category: MediaCategory,
    pub extensions: Vec<String>,
    pub mime_types: Vec<String>,
    pub default_extension: String,
    pub ffmpeg_format: Option<String>,
    pub default_video_codec: Option<String>,
    pub default_audio_codec: Option<String>,
}

/// The value of a [`FormatDefinition`].
pub struct FormatView {
    pub id: Seq<char>,
    pub display_name: Seq<char>,
    pub category: MediaCategory,
    pub extensions: Seq<Seq<char>>,
    pub mime_types: Seq<Seq<char>>,
    pub default_extension: Seq<char>,
    pub ffmpeg_format: Option<Seq<char>>,
    pub default_video_codec: Option<Seq<char>>,
    pub default_audio_codec: Option<Seq<char>>,
}

impl View for FormatDefinition {
    type V = FormatView;

    open spec fn view(&self) -> FormatView {
        FormatView {
            id: self.id@,
            display_name: self.display_name@,
            category: self.category,
            extensions: strings_view(self.extensions@),
            mime_types: strings_view(self.mime_types@),
            default_extension: self.default_extension@,
            ffmpeg_format: opt_view(self.ffmpeg_format),
            default_video_codec: opt_view(self.default_video_codec),
            default_audio_codec: opt_view(self.default_audio_codec),
        }
    }
}

/// The values of a sequence of formats.
pub open spec fn formats_view(v: Seq<FormatDefinition>) -> Seq<FormatView> {
    Seq::new(v.len(), |i: int| v[i]@)
}

/// Whether a codec encodes video or audio.
#[derive(Debug, Clone, Copy, PartialEq, Eq, Structural)]
pub enum CodecKind {
    Video,
    Audio,
}

/// A codec with its FFmpeg encoder and default encoder arguments.
#[derive(Debug, Clone)]
pub struct CodecDefinition {
    pub id: String,
    pub kind: CodecKind,
    pub ffmpeg_encoder: String,
    pub default_args: Vec<String>,
}

/// The value of a [`CodecDefinition`].
pub struct CodecView {
    pub id: Seq<char>,
    pub kind: CodecKind,
    pub ffmpeg_encoder: Seq<char>,
    pub default_args: Seq<Seq<char>>,
}

impl View for CodecDefinition {
    type V = CodecView;

    open spec fn view(&self) -> CodecView {
        CodecView {
            id: self.id@,
            kind: self.kind,
            ffmpeg_encoder: self.ffmpeg_encoder@,
            default_args: strings_view(self.default_args@),
        }
    }
}

/// The values of a sequence of codecs.
pub open spec fn codecs_view(v: Seq<CodecDefinition>) -> Seq<CodecView> {
    Seq::new(v.len(), |i: int| v[i]@)
}

/// A keyed list of target format ids, each key once (as
/// `conversion_capabilities` ensures).
pub type TargetTable = Vec<(String, Vec<String>)>;

/// The keys of a table's value, in order.
pub open spec fn table_keys(t: Seq<(Seq<char>, Seq<Seq<char>>)>) -> Seq<Seq<char>> {
    Seq::new(t.len(), |i: int| t[i].0)
}

/// The value of a [`TargetTable`]: pairs of key and target ids.
pub open spec fn table_view(t: Seq<(String, Vec<String>)>) -> Seq<(Seq<char>, Seq<Seq<char>>)> {
    Seq::new(t.len(), |i: int| (t[i].0@, strings_view(t[i].1@)))
}

/// Everything the user interface needs to offer conversions.
#[derive(Debug, Clone)]
pub struct ConversionCapabilities {
    pub formats: Vec<FormatDefinition>,
    pub codecs: Vec<CodecDefinition>,
    pub targets_by_source_category: TargetTable,
    pub targets_by_source_format: TargetTable,
}

/// Facts about one input file.
///
/// The frame rate of the media description is a floating-point quantity and
/// is not held here; inspection never fills it.
#[derive(Debug, Clone)]
pub struct MediaInfo {
    pub path: String,
    pub category: MediaCategory,
    pub detected_format: String,
    pub duration_ms: Option<u64>,
    pub width: Option<u32>,
    pub height: Option<u32>,
    pub bitrate: Option<u64>,
    pub video_codec: Option<String>,
    pub audio_codec: Option<String>,
    pub audio_channels: Option<u32>,
    pub file_size: u64,
}

/// What to do when the output file already exists.
#[derive(Debug, Clone, Copy, PartialEq, Eq, Structural)]
pub enum OverwritePolicy {
    Rename,
    Overwrite,
    Skip,
    Ask,
}

/// A request to convert some files to one target format.
#[derive(Debug, Clone)]
pub struct ConversionRequest {
    pub input_paths: Vec<String>,
    pub target_format: String,
    pub preset_id: Option<String>,
    pub output_directory: Option<String>,
    pub overwrite_policy: OverwritePolicy,
    pub options: BTreeMap<String, serde_json::Value>,
}

/// One engine invocation that converts one input.
#[derive(Debug, Clone)]
pub struct ConversionPlan {
    pub executable: String,
    pub args: Vec<String>,
    pub temp_output: String,
    pub final_output: String,
    pub category: MediaCategory,
}

/// The value of a [`ConversionPlan`].
pub struct PlanView {
    pub executable: Seq<char>,
    pub args: Seq<Seq<char>>,
    pub temp_output: Seq<char>,
    pub final_output: Seq<char>,
    pub category: MediaCategory,
}

impl View for ConversionPlan {
    type V = PlanView;

    open spec fn view(&self) -> PlanView {
        PlanView {
            executable: self.executable@,
            args: strings_view(self.args@),
            temp_output: self.temp_output@,
            final_output: self.final_output@,
            category: self.category,
        }
    }
}

/// The values of a sequence of plans.
pub open spec fn plans_view(v: Seq<ConversionPlan>) -> Seq<PlanView> {
    Seq::new(v.len(), |i: int| v[i]@)
}

/// The life-cycle state of a job.
#[derive(Debug, Clone, Copy, PartialEq, Eq, Structural)]
pub enum JobStatus {
    Pending,
    Inspecting,
    Ready,
    Processing,
    Completed,
    Failed,
    Cancelled,
}

/// An error as the user interface shows it.
#[derive(Debug, Clone)]
pub struct ConversionError {
    pub code: String,
    pub message: String,
    pub technical_details: Option<String>,
    pub recoverable: bool,
}

/// A point in time: seconds since the Unix epoch and the nanoseconds within
/// that second.
#[derive(Debug, Clone, Copy, PartialEq, Eq, Structural)]
pub struct Timestamp {
    pub secs: i64,
    pub nanos: u32,
}

/// A queued conversion job.
///
/// The job's progress fraction is a floating-point quantity and is not held
/// here; a job is created with no progress.
#[derive(Debug, Clone)]
pub struct ConversionJob {
    pub id: uuid::Uuid,
    pub input_path: String,
    pub output_path: Option<String>,
    pub source_format: Option<String>,
    pub target_format: String,
    pub preset_id: Option<String>,
    pub status: JobStatus,
    pub current_step: Option<String>,
    pub error: Option<ConversionError>,
    pub created_at: Timestamp,
    pub started_at: Option<Timestamp>,
    pub completed_at: Option<Timestamp>,
}

/// A finished conversion as the history records it.
#[derive(Debug, Clone)]
pub struct ConversionHistoryEntry {
    pub id: uuid::Uuid,
    pub input_path: String,
    pub output_path: Option<String>,
    pub target_format: String,
    pub preset_id: Option<String>,
    pub status: String,
    pub started_at: Timestamp,
    pub completed_at: Option<Timestamp>,
    pub original_size: Option<u64>,
    pub output_size: Option<u64>,
    pub error_code: Option<String>,
}

/// A named bundle of conversion settings.
#[derive(Debug, Clone)]
pub struct PresetDefinition {
    pub id: String,
    pub name: String,
    pub category: MediaCategory,
    pub target_format: String,
    pub settings: BTreeMap<String, serde_json::Value>,
}

/// The contents of a preset file.
#[derive(Debug, Clone)]
pub struct PresetFile {
    pub version: u32,
    pub presets: Vec<PresetDefinition>,
}

/// Progress reported for a running job.
///
/// The progress fraction is a floating-point quantity and is not held here;
/// parsed events carry no fraction.
#[derive(Debug, Clone)]
pub struct ProgressEvent {
    pub job_id: uuid::Uuid,
    pub processed_duration_ms: Option<u64>,
    pub total_duration_ms: Option<u64>,
    pub speed: Option<String>,
    pub eta_seconds: Option<u64>,
    pub current_frame: Option<u64>,
    pub current_file: Option<String>,
    pub message: Option<String>,
}

/// User preferences of the desktop application.
#[derive(Debug, Clone)]
pub struct AppSettings {
    pub theme: String,
    pub language: String,
    pub default_output_mode: String,
    pub custom_output_directory: Option<String>,
    pub overwrite_policy: OverwritePolicy,
    pub image_concurrency: usize,
    pub audio_concurrency: usize,
    pub video_concurrency: usize,
    pub preserve_metadata: bool,
    pub notifications_enabled: bool,
    pub minimize_to_tray: bool,
    pub hardware_acceleration: String,
    pub context_menu_enabled: bool,
}

} // verus!
