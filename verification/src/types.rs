//! Core data model: job status, output formats, settings, file records,
//! jobs, timed segments and progress events.

use vstd::prelude::*;
use vstd::string::*;

verus! {

/// State machine of a job: `Pending -> Converting -> Transcribing ->
/// {Completed | Error}`. Cancellation is modeled as `Error` with a fixed
/// message. `Completed` and `Error` are terminal.
#[derive(Debug, Clone, Copy, PartialEq, Eq, Structural)]
pub enum FileStatus {
    Pending,
    Converting,
    Transcribing,
    Completed,
    Error,
}

impl FileStatus {
    /// A terminal status is never left by any transition; only explicit
    /// removal from the registry discards such a job.
    pub open spec fn is_terminal(self) -> bool {
        self == FileStatus::Completed || self == FileStatus::Error
    }
}

/// Output text encoding for a finished transcript.
#[derive(Debug, Clone, Copy, PartialEq, Eq, Structural)]
pub enum OutputFormat {
    Srt,
    Txt,
    Json,
    Vtt,
}

impl OutputFormat {
    /// File extension used when resolving the output path.
    pub open spec fn extension_spec(self) -> Seq<char> {
        match self {
            OutputFormat::Srt => "srt"@,
            OutputFormat::Txt => "txt"@,
            OutputFormat::Json => "json"@,
            OutputFormat::Vtt => "vtt"@,
        }
    }

    pub fn extension(&self) -> (r: &'static str)
        ensures
            r@ == self.extension_spec(),
    {
        match self {
            OutputFormat::Srt => "srt",
            OutputFormat::Txt => "txt",
            OutputFormat::Json => "json",
            OutputFormat::Vtt => "vtt",
        }
    }
}

/// Immutable per-batch configuration. Each job captures its own copy when
/// the batch starts, so later settings changes never race with running jobs.
#[derive(Debug, Clone, PartialEq)]
pub struct TranscriptionSettings {
    pub language: Option<String>,
    pub model: String,
    pub output_format: OutputFormat,
    pub keep_wav: bool,
    pub output_dir: Option<String>,
    pub parallel_jobs: usize,
}

impl Default for TranscriptionSettings {
    /// Defaults used when no stored settings exist: model "base", SRT
    /// output, intermediate files discarded, one job at a time.
    fn default() -> (s: Self)
        ensures
            s.language is None,
            s.model@ == "base"@,
            s.output_format == OutputFormat::Srt,
            !s.keep_wav,
            s.output_dir is None,
            s.parallel_jobs == 1,
    {
        TranscriptionSettings {
            language: None,
            model: String::from_str("base"),
            output_format: OutputFormat::Srt,
            keep_wav: false,
            output_dir: None,
            parallel_jobs: 1,
        }
    }
}

/// One input file selected for transcription, as produced by ingestion.
#[derive(Debug, Clone, PartialEq)]
pub struct FileEntry {
    pub id: String,
    pub path: String,
    pub name: String,
    pub size: u64,
    pub status: FileStatus,
    pub progress: u32,
    pub error: Option<String>,
    pub output_path: Option<String>,
}

/// The unit of work tracked by the scheduler; shares its id with the
/// originating `FileEntry` and owns a copy of the batch settings.
#[derive(Debug, Clone, PartialEq)]
pub struct TranscriptionJob {
    pub id: String,
    pub file_path: String,
    pub settings: TranscriptionSettings,
    pub status: FileStatus,
    pub progress: u32,
    pub error: Option<String>,
    pub output_path: Option<String>,
}

/// Notification emitted on every state or progress change of a job. The
/// registry stays authoritative: a lost event never desynchronizes it.
#[derive(Debug, Clone, PartialEq)]
pub struct ProgressUpdate {
    pub file_id: String,
    pub status: FileStatus,
    pub progress: u32,
    pub message: Option<String>,
}

/// One unit of recognized speech: start and end time in centiseconds
/// (`start <= end` for well-formed engine output) and the recognized text.
#[derive(Debug, Clone, PartialEq)]
pub struct TimedSegment {
    pub start: u64,
    pub end: u64,
    pub text: String,
}

/// A descriptor of one speech-recognition model the engine can use.
#[derive(Debug, Clone, PartialEq)]
pub struct WhisperModel {
    pub name: String,
    pub size: String,
    pub url: String,
    pub downloaded: bool,
    pub file_path: Option<String>,
}

/// One path offered for ingestion together with its observed size on disk
/// (0 when the size could not be read).
#[derive(Debug, Clone, PartialEq)]
pub struct IngestCandidate {
    pub path: String,
    pub size: u64,
}

/// Mathematical image of `TranscriptionSettings`.
#[verifier::ext_equal]
pub struct SettingsView {
    pub language: Option<Seq<char>>,
    pub model: Seq<char>,
    pub output_format: OutputFormat,
    pub keep_wav: bool,
    pub output_dir: Option<Seq<char>>,
    pub parallel_jobs: int,
}

impl View for TranscriptionSettings {
    type V = SettingsView;

    open spec fn view(&self) -> SettingsView {
        SettingsView {
            language: match self.language {
                Some(l) => Some(l@),
                None => None,
            },
            model: self.model@,
            output_format: self.output_format,
            keep_wav: self.keep_wav,
            output_dir: match self.output_dir {
                Some(d) => Some(d@),
                None => None,
            },
            parallel_jobs: self.parallel_jobs as int,
        }
    }
}

/// Mathematical image of `TranscriptionJob`.
#[verifier::ext_equal]
pub struct JobView {
    pub id: Seq<char>,
    pub file_path: Seq<char>,
    pub settings: SettingsView,
    pub status: FileStatus,
    pub progress: int,
    pub error: Option<Seq<char>>,
    pub output_path: Option<Seq<char>>,
}

impl View for TranscriptionJob {
    type V = JobView;

    open spec fn view(&self) -> JobView {
        JobView {
            id: self.id@,
            file_path: self.file_path@,
            settings: self.settings@,
            status: self.status,
            progress: self.progress as int,
            error: match self.error {
                Some(e) => Some(e@),
                None => None,
            },
            output_path: match self.output_path {
                Some(p) => Some(p@),
                None => None,
            },
        }
    }
}

impl DeepView for TranscriptionJob {
    type V = JobView;

    open spec fn deep_view(&self) -> JobView {
        self.view()
    }
}

/// One outcome of the outside work between two decisions of the scheduler,
/// reported back so the job's state machine can advance: the start and the
/// result of conversion, a model-load failure, an engine progress fraction
/// (0..=100), the end of transcription, the result of writing the
/// transcript (carrying the resolved output path on success), or a
/// cancellation request.
#[derive(Debug, Clone, PartialEq)]
pub enum JobEvent {
    ConversionStarted,
    ConversionFailed(String),
    ConversionSucceeded,
    ModelLoadFailed(String),
    EngineProgress(u32),
    TranscriptionFailed(String),
    OutputWritten(String),
    OutputWriteFailed(String),
    CancelRequested,
}

/// Mathematical image of `JobEvent`.
pub enum EventView {
    ConversionStarted,
    ConversionFailed(Seq<char>),
    ConversionSucceeded,
    ModelLoadFailed(Seq<char>),
    EngineProgress(int),
    TranscriptionFailed(Seq<char>),
    OutputWritten(Seq<char>),
    OutputWriteFailed(Seq<char>),
    CancelRequested,
}

impl View for JobEvent {
    type V = EventView;

    open spec fn view(&self) -> EventView {
        match self {
            JobEvent::ConversionStarted => EventView::ConversionStarted,
            JobEvent::ConversionFailed(d) => EventView::ConversionFailed(d@),
            JobEvent::ConversionSucceeded => EventView::ConversionSucceeded,
            JobEvent::ModelLoadFailed(d) => EventView::ModelLoadFailed(d@),
            JobEvent::EngineProgress(p) => EventView::EngineProgress(*p as int),
            JobEvent::TranscriptionFailed(d) => EventView::TranscriptionFailed(d@),
            JobEvent::OutputWritten(p) => EventView::OutputWritten(p@),
            JobEvent::OutputWriteFailed(d) => EventView::OutputWriteFailed(d@),
            JobEvent::CancelRequested => EventView::CancelRequested,
        }
    }
}

/// Mathematical image of `ProgressUpdate`.
#[verifier::ext_equal]
pub struct UpdateView {
    pub file_id: Seq<char>,
    pub status: FileStatus,
    pub progress: int,
    pub message: Option<Seq<char>>,
}

impl View for ProgressUpdate {
    type V = UpdateView;

    open spec fn view(&self) -> UpdateView {
        UpdateView {
            file_id: self.file_id@,
            status: self.status,
            progress: self.progress as int,
            message: match self.message {
                Some(m) => Some(m@),
                None => None,
            },
        }
    }
}

} // verus!
