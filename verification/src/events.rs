//! What the engine tells its frontends.

use vstd::prelude::*;
use vstd::std_specs::convert::FromSpecImpl;
use crate::classify::MediaKind;
use crate::datetime::DateTime;
use crate::metadata::DateSource;
use crate::source::SourceId;
use crate::text;

verus! {

/// Names a file within a run.
#[derive(Debug, PartialEq, Eq, Hash)]
pub struct FileId {
    pub source: SourceId,
    pub rel_path: String,
}

/// The contents of a [`FileId`].
pub struct FileIdView {
    pub source: Seq<char>,
    pub rel_path: Seq<char>,
}

impl View for FileId {
    type V = FileIdView;

    open spec fn view(&self) -> FileIdView {
        FileIdView { source: self.source@, rel_path: self.rel_path@ }
    }
}

impl Clone for FileId {
    fn clone(&self) -> (r: Self)
        ensures
            r@ == self@,
    {
        FileId { source: self.source.clone(), rel_path: self.rel_path.clone() }
    }
}

/// What is to be done with a file.
#[derive(Debug, Clone, Copy, PartialEq, Eq, Structural)]
pub enum PlannedAction {
    Copy,
    SkipExists,
    SkipFiltered,
    SkipNoDate,
    Error,
}

/// The kind of a file, as events carry it.
#[derive(Debug, Clone, Copy, PartialEq, Eq, Structural)]
pub enum MediaKindWire {
    Image,
    RawImage,
    Video,
    Sidecar,
}

/// The kind of a file, as events carry it.
pub open spec fn wire_kind(k: MediaKind) -> MediaKindWire {
    match k {
        MediaKind::Image { raw } => if raw {
            MediaKindWire::RawImage
        } else {
            MediaKindWire::Image
        },
        MediaKind::Video => MediaKindWire::Video,
        MediaKind::Sidecar => MediaKindWire::Sidecar,
    }
}

impl FromSpecImpl<MediaKind> for MediaKindWire {
    open spec fn obeys_from_spec() -> bool {
        true
    }

    open spec fn from_spec(k: MediaKind) -> Self {
        wire_kind(k)
    }
}

impl From<MediaKind> for MediaKindWire {
    fn from(k: MediaKind) -> Self {
        match k {
            MediaKind::Image { raw } => if raw {
                MediaKindWire::RawImage
            } else {
                MediaKindWire::Image
            },
            MediaKind::Video => MediaKindWire::Video,
            MediaKind::Sidecar => MediaKindWire::Sidecar,
        }
    }
}

/// Where a date comes from, as events carry it.
#[derive(Debug, Clone, Copy, PartialEq, Eq, Structural)]
pub enum DateSourceWire {
    DateTimeOriginal,
    CreateDate,
    MediaCreateDate,
    ModifyDate,
    FileMtime,
}

/// Where a date comes from, as events carry it.
pub open spec fn wire_date_source(d: DateSource) -> DateSourceWire {
    match d {
        DateSource::DateTimeOriginal => DateSourceWire::DateTimeOriginal,
        DateSource::CreateDate => DateSourceWire::CreateDate,
        DateSource::MediaCreateDate => DateSourceWire::MediaCreateDate,
        DateSource::ModifyDate => DateSourceWire::ModifyDate,
        DateSource::FileMtime => DateSourceWire::FileMtime,
    }
}

impl FromSpecImpl<DateSource> for DateSourceWire {
    open spec fn obeys_from_spec() -> bool {
        true
    }

    open spec fn from_spec(d: DateSource) -> Self {
        wire_date_source(d)
    }
}

impl From<DateSource> for DateSourceWire {
    fn from(d: DateSource) -> Self {
        match d {
            DateSource::DateTimeOriginal => DateSourceWire::DateTimeOriginal,
            DateSource::CreateDate => DateSourceWire::CreateDate,
            DateSource::MediaCreateDate => DateSourceWire::MediaCreateDate,
            DateSource::ModifyDate => DateSourceWire::ModifyDate,
            DateSource::FileMtime => DateSourceWire::FileMtime,
        }
    }
}

/// What the engine plans to do with a file.
#[derive(Debug)]
pub struct PlannedFile {
    pub source: SourceId,
    pub source_rel_path: String,
    pub source_size: u64,
    pub kind: MediaKindWire,
    pub action: PlannedAction,
    /// Where the file goes, once its date is known.
    pub dest_path: Option<String>,
    /// The capture date. It may be a fallback.
    pub datetime: Option<DateTime>,
    pub date_source: Option<DateSourceWire>,
    /// Why the file is skipped or cannot be copied.
    pub reason: Option<String>,
}

/// The contents of a [`PlannedFile`].
pub struct PlannedFileView {
    pub source: Seq<char>,
    pub source_rel_path: Seq<char>,
    pub source_size: u64,
    pub kind: MediaKindWire,
    pub action: PlannedAction,
    pub dest_path: Option<Seq<char>>,
    pub datetime: Option<DateTime>,
    pub date_source: Option<DateSourceWire>,
    pub reason: Option<Seq<char>>,
}

impl View for PlannedFile {
    type V = PlannedFileView;

    open spec fn view(&self) -> PlannedFileView {
        PlannedFileView {
            source: self.source@,
            source_rel_path: self.source_rel_path@,
            source_size: self.source_size,
            kind: self.kind,
            action: self.action,
            dest_path: text::opt_text(self.dest_path),
            datetime: self.datetime,
            date_source: self.date_source,
            reason: text::opt_text(self.reason),
        }
    }
}

impl Clone for PlannedFile {
    fn clone(&self) -> (r: Self)
        ensures
            r@ == self@,
    {
        PlannedFile {
            source: self.source.clone(),
            source_rel_path: self.source_rel_path.clone(),
            source_size: self.source_size,
            kind: self.kind,
            action: self.action,
            dest_path: text::copy_opt(&self.dest_path),
            datetime: self.datetime,
            date_source: self.date_source,
            reason: text::copy_opt(&self.reason),
        }
    }
}

impl PlannedFileView {
    /// The name of the file within the run.
    pub open spec fn id(self) -> FileIdView {
        FileIdView { source: self.source, rel_path: self.source_rel_path }
    }
}

impl PlannedFile {
    /// The name of the file within the run.
    pub fn id(&self) -> (r: FileId)
        ensures
            r@ == self@.id(),
    {
        FileId { source: self.source.clone(), rel_path: self.source_rel_path.clone() }
    }
}

/// The contents of a list of planned files.
pub open spec fn planned_view(v: Seq<PlannedFile>) -> Seq<PlannedFileView> {
    v.map_values(|p: PlannedFile| p@)
}

/// The camera profile that was found for a source.
#[derive(Debug, PartialEq, Eq)]
pub struct DetectedProfile {
    pub id: String,
    pub display_name: String,
}

/// The contents of a [`DetectedProfile`].
pub struct DetectedProfileView {
    pub id: Seq<char>,
    pub display_name: Seq<char>,
}

impl View for DetectedProfile {
    type V = DetectedProfileView;

    open spec fn view(&self) -> DetectedProfileView {
        DetectedProfileView { id: self.id@, display_name: self.display_name@ }
    }
}

impl Clone for DetectedProfile {
    fn clone(&self) -> (r: Self)
        ensures
            r@ == self@,
    {
        DetectedProfile { id: self.id.clone(), display_name: self.display_name.clone() }
    }
}

/// What a plan comes to.
#[derive(Debug, Clone, Copy, PartialEq, Eq, Structural)]
pub struct PlanSummary {
    pub copies: u64,
    pub skips: u64,
    pub errors: u64,
}

/// What a run came to.
#[derive(Debug, Clone, Copy, PartialEq, Eq, Structural)]
pub struct SyncSummary {
    pub total: u64,
    pub copied: u64,
    pub skipped: u64,
    pub failed: u64,
    pub cancelled: bool,
}

impl Default for PlanSummary {
    fn default() -> (r: Self)
        ensures
            r == (PlanSummary { copies: 0, skips: 0, errors: 0 }),
    {
        PlanSummary { copies: 0, skips: 0, errors: 0 }
    }
}

impl Default for SyncSummary {
    fn default() -> (r: Self)
        ensures
            r == (SyncSummary { total: 0, copied: 0, skipped: 0, failed: 0, cancelled: false }),
    {
        SyncSummary { total: 0, copied: 0, skipped: 0, failed: 0, cancelled: false }
    }
}

impl SyncSummary {
    /// How many files have an outcome.
    pub fn completed(&self) -> (r: u64)
        requires
            self.copied + self.skipped + self.failed <= u64::MAX,
        ensures
            r == self.copied + self.skipped + self.failed,
    {
        self.copied + self.skipped + self.failed
    }
}

/// What is being done to a file.
#[derive(Debug, Clone, Copy, PartialEq, Eq, Structural)]
pub enum FilePhase {
    Copying,
    Verifying,
    ReadingMetadata,
    ResolvingDestination,
    Finalizing,
}

/// What a warning is about.
#[derive(Debug, Clone, Copy, PartialEq, Eq, Structural)]
pub enum WarningKind {
    ExifToolUnavailable,
    MetadataFallback,
    Template,
}

/// What an error is about.
#[derive(Debug, Clone, Copy, PartialEq, Eq, Structural)]
pub enum OperationErrorKind {
    Cancelled,
    Configuration,
    Destination,
    Source,
    ExifTool,
    Io,
    Internal,
}

/// What became of a file.
#[derive(Debug)]
pub enum FileOutcome {
    Copied { bytes: u64 },
    Skipped { reason: String },
    Failed { error: String },
}

/// The contents of a [`FileOutcome`].
pub enum OutcomeView {
    Copied { bytes: u64 },
    Skipped { reason: Seq<char> },
    Failed { error: Seq<char> },
}

impl View for FileOutcome {
    type V = OutcomeView;

    open spec fn view(&self) -> OutcomeView {
        match self {
            FileOutcome::Copied { bytes } => OutcomeView::Copied { bytes: *bytes },
            FileOutcome::Skipped { reason } => OutcomeView::Skipped { reason: reason@ },
            FileOutcome::Failed { error } => OutcomeView::Failed { error: error@ },
        }
    }
}

impl Clone for FileOutcome {
    fn clone(&self) -> (r: Self)
        ensures
            r@ == self@,
    {
        match self {
            FileOutcome::Copied { bytes } => FileOutcome::Copied { bytes: *bytes },
            FileOutcome::Skipped { reason } => FileOutcome::Skipped { reason: reason.clone() },
            FileOutcome::Failed { error } => FileOutcome::Failed { error: error.clone() },
        }
    }
}

/// What the engine tells its frontends.
#[derive(Debug)]
#[allow(inconsistent_fields)]
pub enum EngineEvent {
    ScanStarted { source: SourceId, display_name: String },
    ScanProgress { source: SourceId, files_seen: u64 },
    ScanComplete { source: SourceId, files: u64 },
    ProfileDetected { profile: DetectedProfile },
    MetadataProgress { done: u64, total: u64 },
    PlanReady { summary: PlanSummary },
    ExecutionStarted { total_files: u64, total_bytes: u64, dry_run: bool },
    FileStarted { file: PlannedFile },
    FilePhaseChanged { file: FileId, phase: FilePhase },
    FileProgress { file: FileId, bytes_done: u64, bytes_total: u64 },
    FileFinished { file: PlannedFile, outcome: FileOutcome },
    ExecutionProgress { summary: SyncSummary },
    ExecutionFinished { summary: SyncSummary },
    Warning { kind: WarningKind, message: String, file: Option<FileId> },
    Error { kind: OperationErrorKind, message: String, file: Option<FileId> },
}

/// The contents of an [`EngineEvent`].
#[allow(inconsistent_fields)]
pub enum EventView {
    ScanStarted { source: Seq<char>, display_name: Seq<char> },
    ScanProgress { source: Seq<char>, files_seen: u64 },
    ScanComplete { source: Seq<char>, files: u64 },
    ProfileDetected { profile: DetectedProfileView },
    MetadataProgress { done: u64, total: u64 },
    PlanReady { summary: PlanSummary },
    ExecutionStarted { total_files: u64, total_bytes: u64, dry_run: bool },
    FileStarted { file: PlannedFileView },
    FilePhaseChanged { file: FileIdView, phase: FilePhase },
    FileProgress { file: FileIdView, bytes_done: u64, bytes_total: u64 },
    FileFinished { file: PlannedFileView, outcome: OutcomeView },
    ExecutionProgress { summary: SyncSummary },
    ExecutionFinished { summary: SyncSummary },
    Warning { kind: WarningKind, message: Seq<char>, file: Option<FileIdView> },
    Error { kind: OperationErrorKind, message: Seq<char>, file: Option<FileIdView> },
}

/// The contents of an optional [`FileId`].
pub open spec fn opt_file(f: Option<FileId>) -> Option<FileIdView> {
    match f {
        Some(id) => Some(id@),
        None => None,
    }
}

impl View for EngineEvent {
    type V = EventView;

    open spec fn view(&self) -> EventView {
        match self {
            EngineEvent::ScanStarted { source, display_name } => EventView::ScanStarted {
                source: source@,
                display_name: display_name@,
            },
            EngineEvent::ScanProgress { source, files_seen } => EventView::ScanProgress {
                source: source@,
                files_seen: *files_seen,
            },
            EngineEvent::ScanComplete { source, files } => EventView::ScanComplete {
                source: source@,
                files: *files,
            },
            EngineEvent::ProfileDetected { profile } => EventView::ProfileDetected {
                profile: profile@,
            },
            EngineEvent::MetadataProgress { done, total } => EventView::MetadataProgress {
                done: *done,
                total: *total,
            },
            EngineEvent::PlanReady { summary } => EventView::PlanReady { summary: *summary },
            EngineEvent::ExecutionStarted { total_files, total_bytes, dry_run } =>
                EventView::ExecutionStarted {
                    total_files: *total_files,
                    total_bytes: *total_bytes,
                    dry_run: *dry_run,
                },
            EngineEvent::FileStarted { file } => EventView::FileStarted { file: file@ },
            EngineEvent::FilePhaseChanged { file, phase } => EventView::FilePhaseChanged {
                file: file@,
                phase: *phase,
            },
            EngineEvent::FileProgress { file, bytes_done, bytes_total } =>
                EventView::FileProgress {
                    file: file@,
                    bytes_done: *bytes_done,
                    bytes_total: *bytes_total,
                },
            EngineEvent::FileFinished { file, outcome } => EventView::FileFinished {
                file: file@,
                outcome: outcome@,
            },
            EngineEvent::ExecutionProgress { summary } => EventView::ExecutionProgress {
                summary: *summary,
            },
            EngineEvent::ExecutionFinished { summary } => EventView::ExecutionFinished {
                summary: *summary,
            },
            EngineEvent::Warning { kind, message, file } => EventView::Warning {
                kind: *kind,
                message: message@,
                file: opt_file(*file),
            },
            EngineEvent::Error { kind, message, file } => EventView::Error {
                kind: *kind,
                message: message@,
                file: opt_file(*file),
            },
        }
    }
}

fn copy_file_id(f: &Option<FileId>) -> (r: Option<FileId>)
    ensures
        opt_file(r) == opt_file(*f),
{
    match f {
        Some(id) => Some(id.clone()),
        None => None,
    }
}

impl Clone for EngineEvent {
    fn clone(&self) -> (r: Self)
        ensures
            r@ == self@,
    {
        match self {
            EngineEvent::ScanStarted { source, display_name } => EngineEvent::ScanStarted {
                source: source.clone(),
                display_name: display_name.clone(),
            },
            EngineEvent::ScanProgress { source, files_seen } => EngineEvent::ScanProgress {
                source: source.clone(),
                files_seen: *files_seen,
            },
            EngineEvent::ScanComplete { source, files } => EngineEvent::ScanComplete {
                source: source.clone(),
                files: *files,
            },
            EngineEvent::ProfileDetected { profile } => EngineEvent::ProfileDetected {
                profile: profile.clone(),
            },
            EngineEvent::MetadataProgress { done, total } => EngineEvent::MetadataProgress {
                done: *done,
                total: *total,
            },
            EngineEvent::PlanReady { summary } => EngineEvent::PlanReady { summary: *summary },
            EngineEvent::ExecutionStarted { total_files, total_bytes, dry_run } =>
                EngineEvent::ExecutionStarted {
                    total_files: *total_files,
                    total_bytes: *total_bytes,
                    dry_run: *dry_run,
                },
            EngineEvent::FileStarted { file } => EngineEvent::FileStarted { file: file.clone() },
            EngineEvent::FilePhaseChanged { file, phase } => EngineEvent::FilePhaseChanged {
                file: file.clone(),
                phase: *phase,
            },
            EngineEvent::FileProgress { file, bytes_done, bytes_total } =>
                EngineEvent::FileProgress {
                    file: file.clone(),
                    bytes_done: *bytes_done,
                    bytes_total: *bytes_total,
                },
            EngineEvent::FileFinished { file, outcome } => EngineEvent::FileFinished {
                file: file.clone(),
                outcome: outcome.clone(),
            },
            EngineEvent::ExecutionProgress { summary } => EngineEvent::ExecutionProgress {
                summary: *summary,
            },
            EngineEvent::ExecutionFinished { summary } => EngineEvent::ExecutionFinished {
                summary: *summary,
            },
            EngineEvent::Warning { kind, message, file } => EngineEvent::Warning {
                kind: *kind,
                message: message.clone(),
                file: copy_file_id(file),
            },
            EngineEvent::Error { kind, message, file } => EngineEvent::Error {
                kind: *kind,
                message: message.clone(),
                file: copy_file_id(file),
            },
        }
    }
}

/// The kind of a file is told as what it is: no two kinds look alike to a frontend.
pub proof fn law_kinds_are_told_as_they_are(k: MediaKind, d: DateSource)
    ensures
        wire_kind(k) is RawImage <==> k == (MediaKind::Image { raw: true }),
        wire_kind(k) is Image <==> k == (MediaKind::Image { raw: false }),
        wire_kind(k) is Video <==> k is Video,
        wire_kind(k) is Sidecar <==> k is Sidecar,
        wire_date_source(d) is DateTimeOriginal <==> d is DateTimeOriginal,
        wire_date_source(d) is CreateDate <==> d is CreateDate,
        wire_date_source(d) is MediaCreateDate <==> d is MediaCreateDate,
        wire_date_source(d) is ModifyDate <==> d is ModifyDate,
        wire_date_source(d) is FileMtime <==> d is FileMtime,
{
}

/// A planned file is known by its source and its path there, and what is said of it is said of
/// its own fields.
pub proof fn law_planned_files_are_their_fields(p: PlannedFile)
    ensures
        p@.source == p.source.0@,
        p@.source_rel_path == p.source_rel_path@,
        p@.source_size == p.source_size,
        p@.kind == p.kind,
        p@.action == p.action,
        p@.dest_path is Some <==> p.dest_path is Some,
        p.dest_path is Some ==> p@.dest_path->0 == p.dest_path->0@,
        p@.datetime == p.datetime,
        p@.date_source == p.date_source,
        p@.reason is Some <==> p.reason is Some,
        p.reason is Some ==> p@.reason->0 == p.reason->0@,
        p@.id().source == p.source.0@,
        p@.id().rel_path == p.source_rel_path@,
{
}

} // verus!
