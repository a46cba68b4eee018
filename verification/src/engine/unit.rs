//! One unit of work: a media file with its sidecars, from the source to its
//! place in the library. The files are copied to a staging directory, the copy
//! of the media file is read for its date, and then all are moved into place.

use vstd::prelude::*;
use crate::classify::MediaKind;
use crate::config::{EngineConfig, EngineConfigView};
use crate::datetime::DateTime;
use crate::error::{Error, Result};
use crate::events::{
    self, DateSourceWire, EngineEvent, EventView, FileId, FileIdView, FileOutcome, FilePhase,
    MediaKindWire, OutcomeView, PlannedAction, PlannedFile, PlannedFileView, WarningKind,
};
use crate::exiftool::{self, FileMetadata, MetadataView};
use crate::index::STAGING_DIR_NAME;
use crate::metadata::{self, DateSource, ResolvedMetadata, ResolvedView};
use crate::path::{self, NativePath, NativeView};
use crate::plan::{self, CopyUnit, UnitView};
use crate::source::{BackendHandle, SourceFile, SourceFileView, SourceId};
use crate::text;

verus! {

/// A file in the staging directory.
#[derive(Debug)]
pub struct StagedFile {
    pub staged_path: String,
    pub rel_path: String,
    pub size: u64,
    pub kind: MediaKind,
    pub mtime: Option<DateTime>,
}

/// The contents of a [`StagedFile`].
pub struct StagedView {
    pub staged_path: Seq<char>,
    pub rel_path: Seq<char>,
    pub size: u64,
    pub kind: MediaKind,
    pub mtime: Option<DateTime>,
}

impl View for StagedFile {
    type V = StagedView;

    open spec fn view(&self) -> StagedView {
        StagedView {
            staged_path: self.staged_path@,
            rel_path: self.rel_path@,
            size: self.size,
            kind: self.kind,
            mtime: self.mtime,
        }
    }
}

/// The contents of a list of staged files.
pub open spec fn staged_view(v: Seq<StagedFile>) -> Seq<StagedView> {
    v.map_values(|f: StagedFile| f@)
}

/// What is to be done next.
#[derive(Debug)]
#[allow(inconsistent_fields)]
pub enum UnitAction {
    /// Send an event. Answered by `Sent`.
    Emit(EngineEvent),
    /// Count an outcome and send it. Answered by `Finished`.
    Finish { file: PlannedFile, outcome: FileOutcome },
    /// Ask the source where a file can be read. Answered by `SourcePath`.
    ResolveSource { file: SourceFile },
    /// Copy a file. Answered by `Copied`.
    CopyToStaging { from: NativePath, to: String, size: u64, file: FileId },
    /// Ask ExifTool about a file. Answered by `Metadata`.
    ReadMetadata { path: String },
    /// Decide on a destination and reserve it. Answered by `Reserved`.
    Reserve { dest: String, name: String, size: u64 },
    /// Move a file. Answered by `Moved`.
    Move { from: String, to: String },
    /// Remove a file, if it is there. Answered by `Removed`.
    Remove { path: String },
    /// Remove a directory with all it holds, if it is there. Answered by
    /// `Removed`.
    RemoveDir { path: String },
    /// Nothing more.
    Done,
}

/// The contents of a [`UnitAction`].
#[allow(inconsistent_fields)]
pub enum ActionView {
    Emit(EventView),
    Finish { file: PlannedFileView, outcome: OutcomeView },
    ResolveSource { file: SourceFileView },
    CopyToStaging { from: NativeView, to: Seq<char>, size: u64, file: FileIdView },
    ReadMetadata { path: Seq<char> },
    Reserve { dest: Seq<char>, name: Seq<char>, size: u64 },
    Move { from: Seq<char>, to: Seq<char> },
    Remove { path: Seq<char> },
    RemoveDir { path: Seq<char> },
    Done,
}

impl View for UnitAction {
    type V = ActionView;

    open spec fn view(&self) -> ActionView {
        match self {
            UnitAction::Emit(e) => ActionView::Emit(e@),
            UnitAction::Finish { file, outcome } => ActionView::Finish {
                file: file@,
                outcome: outcome@,
            },
            UnitAction::ResolveSource { file } => ActionView::ResolveSource { file: file@ },
            UnitAction::CopyToStaging { from, to, size, file } => ActionView::CopyToStaging {
                from: from@,
                to: to@,
                size: *size,
                file: file@,
            },
            UnitAction::ReadMetadata { path } => ActionView::ReadMetadata { path: path@ },
            UnitAction::Reserve { dest, name, size } => ActionView::Reserve {
                dest: dest@,
                name: name@,
                size: *size,
            },
            UnitAction::Move { from, to } => ActionView::Move { from: from@, to: to@ },
            UnitAction::Remove { path } => ActionView::Remove { path: path@ },
            UnitAction::RemoveDir { path } => ActionView::RemoveDir { path: path@ },
            UnitAction::Done => ActionView::Done,
        }
    }
}

/// What came of the last action. Failures come with their message.
#[derive(Debug)]
pub enum UnitEvent {
    Start,
    /// Whether anyone still listens.
    Sent(bool),
    Finished,
    SourcePath(std::result::Result<NativePath, String>),
    Copied(std::result::Result<(), String>),
    Metadata(std::result::Result<Vec<FileMetadata>, String>),
    Reserved(PlannedAction, Option<String>),
    Moved(std::result::Result<(), String>),
    Removed,
}

/// The contents of a [`UnitEvent`]. Of metadata the last counts.
pub enum InputView {
    Start,
    Sent(bool),
    Finished,
    SourcePath(std::result::Result<NativeView, Seq<char>>),
    Copied(std::result::Result<(), Seq<char>>),
    Metadata(std::result::Result<MetadataView, Seq<char>>),
    Reserved(PlannedAction, Option<Seq<char>>),
    Moved(std::result::Result<(), Seq<char>>),
    Removed,
}

/// The last of some metadata, or none.
pub open spec fn last_of(v: Seq<FileMetadata>) -> MetadataView {
    if v.len() > 0 {
        v.last()@
    } else {
        exiftool::no_metadata()
    }
}

impl View for UnitEvent {
    type V = InputView;

    open spec fn view(&self) -> InputView {
        match self {
            UnitEvent::Start => InputView::Start,
            UnitEvent::Sent(ok) => InputView::Sent(*ok),
            UnitEvent::Finished => InputView::Finished,
            UnitEvent::SourcePath(Ok(p)) => InputView::SourcePath(Ok(p@)),
            UnitEvent::SourcePath(Err(m)) => InputView::SourcePath(Err(m@)),
            UnitEvent::Copied(Ok(_)) => InputView::Copied(Ok(())),
            UnitEvent::Copied(Err(m)) => InputView::Copied(Err(m@)),
            UnitEvent::Metadata(Ok(v)) => InputView::Metadata(Ok(last_of(v@))),
            UnitEvent::Metadata(Err(m)) => InputView::Metadata(Err(m@)),
            UnitEvent::Reserved(a, r) => InputView::Reserved(*a, text::opt_text(*r)),
            UnitEvent::Moved(Ok(_)) => InputView::Moved(Ok(())),
            UnitEvent::Moved(Err(m)) => InputView::Moved(Err(m@)),
            UnitEvent::Removed => InputView::Removed,
        }
    }
}

/// Where the work stands: what was asked for last. File 0 is the media file,
/// the sidecars follow from 1; staged files are numbered in the order in which
/// they were staged.
#[derive(Debug)]
enum Stage {
    Ready,
    /// A file was announced.
    Started(usize),
    /// The copying of a file was announced.
    Announced(usize),
    /// The source was asked for a file.
    Resolving(usize),
    /// A file is being copied.
    Copying(usize),
    /// The failure of a copy was reported.
    CopyFailed(usize),
    /// A sidecar whose media file could not be copied was announced.
    Orphaned(usize),
    /// Its failure was reported.
    OrphanFailed(usize),
    /// The reading of metadata was announced.
    Reading,
    /// ExifTool was asked.
    AwaitMetadata,
    /// The failure to read metadata was reported.
    Warned,
    /// A date that is not the camera's own was reported.
    FallbackWarned,
    /// The placing of a staged file was announced.
    Placing(usize),
    /// Its destination is being decided.
    Reserving(usize),
    /// Its move was announced.
    Finalizing(usize),
    /// It is being moved.
    Moving(usize),
    /// It is being removed, and will then have this outcome.
    Discarding(usize, PlannedFile, FileOutcome),
    /// Its outcome was reported.
    Settled(usize),
    /// The staging directory is being removed.
    Cleaning,
    Over,
}

/// Where the work stands.
pub enum StageView {
    Ready,
    Started(int),
    Announced(int),
    Resolving(int),
    Copying(int),
    CopyFailed(int),
    Orphaned(int),
    OrphanFailed(int),
    Reading,
    AwaitMetadata,
    Warned,
    FallbackWarned,
    Placing(int),
    Reserving(int),
    Finalizing(int),
    Moving(int),
    Discarding(int, PlannedFileView, OutcomeView),
    Settled(int),
    Cleaning,
    Over,
}

impl View for Stage {
    type V = StageView;

    closed spec fn view(&self) -> StageView {
        match self {
            Stage::Ready => StageView::Ready,
            Stage::Started(i) => StageView::Started(*i as int),
            Stage::Announced(i) => StageView::Announced(*i as int),
            Stage::Resolving(i) => StageView::Resolving(*i as int),
            Stage::Copying(i) => StageView::Copying(*i as int),
            Stage::CopyFailed(i) => StageView::CopyFailed(*i as int),
            Stage::Orphaned(i) => StageView::Orphaned(*i as int),
            Stage::OrphanFailed(i) => StageView::OrphanFailed(*i as int),
            Stage::Reading => StageView::Reading,
            Stage::AwaitMetadata => StageView::AwaitMetadata,
            Stage::Warned => StageView::Warned,
            Stage::FallbackWarned => StageView::FallbackWarned,
            Stage::Placing(j) => StageView::Placing(*j as int),
            Stage::Reserving(j) => StageView::Reserving(*j as int),
            Stage::Finalizing(j) => StageView::Finalizing(*j as int),
            Stage::Moving(j) => StageView::Moving(*j as int),
            Stage::Discarding(j, f, o) => StageView::Discarding(*j as int, f@, o@),
            Stage::Settled(j) => StageView::Settled(*j as int),
            Stage::Cleaning => StageView::Cleaning,
            Stage::Over => StageView::Over,
        }
    }
}

/// The state of the work on a unit.
pub struct UnitState {
    pub cfg: EngineConfigView,
    pub source: Seq<char>,
    pub unit: UnitView,
    pub seq_dir: Seq<char>,
    pub has_exif: bool,
    pub staged: Seq<StagedView>,
    pub date: Option<ResolvedView>,
    pub stage: StageView,
}

/// A state and what is to be done in it.
pub type Step = (UnitState, ActionView);

impl UnitState {
    /// How many files the unit has.
    pub open spec fn count(self) -> int {
        (1 + self.unit.sidecars.len()) as int
    }

    /// A file of the unit.
    pub open spec fn file(self, i: int) -> SourceFileView {
        if i == 0 {
            self.unit.parent
        } else {
            self.unit.sidecars[i - 1]
        }
    }

    /// The kind of a file of the unit.
    pub open spec fn kind(self, i: int) -> MediaKind {
        if i == 0 {
            self.unit.parent_kind
        } else {
            MediaKind::Sidecar
        }
    }

    /// The row of a file that has no place yet.
    pub open spec fn row(self, i: int) -> PlannedFileView {
        plan::provisional(self.source, self.file(i), self.kind(i))
    }

    /// Where a file is staged.
    pub open spec fn staging_path(self, i: int) -> Seq<char> {
        path::join(self.seq_dir, text::after_last(self.file(i).rel_path, '/'))
    }

    /// The name of a staged file within the run.
    pub open spec fn staged_id(self, j: int) -> FileIdView {
        FileIdView { source: self.source, rel_path: self.staged[j].rel_path }
    }

    /// The file name of a staged file.
    pub open spec fn staged_name(self, j: int) -> Seq<char> {
        text::after_last(self.staged[j].rel_path, '/')
    }

    /// Where a staged file goes. Sidecars go with their media file.
    pub open spec fn dest(self, j: int) -> Seq<char> {
        plan::dest_path(
            self.cfg,
            self.unit.parent_kind,
            self.date->0.datetime,
            self.staged_name(j),
        )
    }

    /// The row of a staged file with an outcome.
    pub open spec fn placed(
        self,
        j: int,
        dest: Option<Seq<char>>,
        action: PlannedAction,
        reason: Option<Seq<char>>,
    ) -> PlannedFileView {
        PlannedFileView {
            source: self.source,
            source_rel_path: self.staged[j].rel_path,
            source_size: self.staged[j].size,
            kind: events::wire_kind(self.staged[j].kind),
            action,
            dest_path: dest,
            datetime: match self.date {
                Some(d) => Some(d.datetime),
                None => None,
            },
            date_source: match self.date {
                Some(d) => Some(events::wire_date_source(d.source)),
                None => None,
            },
            reason,
        }
    }

    pub open spec fn at(self, stage: StageView) -> UnitState {
        UnitState { stage, ..self }
    }

    /// The staging directory is removed, whatever else happened.
    pub open spec fn clean(self) -> Step {
        (self.at(StageView::Cleaning), ActionView::RemoveDir { path: self.seq_dir })
    }

    /// A phase of the work on a staged file is announced.
    pub open spec fn phase(self, j: int, phase: FilePhase) -> ActionView {
        ActionView::Emit(EventView::FilePhaseChanged { file: self.staged_id(j), phase })
    }

    /// Goes on with the copy of file `i`, or with the metadata once all files
    /// are copied.
    pub open spec fn next_copy(self, i: int, cancelled: bool) -> Step {
        if cancelled {
            self.clean()
        } else if i >= self.count() {
            (self.at(StageView::Reading), self.phase(0, FilePhase::ReadingMetadata))
        } else {
            (
                self.at(StageView::Started(i)),
                ActionView::Emit(EventView::FileStarted { file: self.row(i) }),
            )
        }
    }

    /// The next sidecar is reported as failed, since its media file was not
    /// copied.
    pub open spec fn orphan(self, k: int) -> Step {
        if k >= self.unit.sidecars.len() {
            self.clean()
        } else {
            (
                self.at(StageView::Orphaned(k)),
                ActionView::Emit(EventView::FileStarted { file: self.row(k + 1) }),
            )
        }
    }

    /// File `i` was not copied. Without the media file the sidecars are not
    /// copied either.
    pub open spec fn copy_lost(self, i: int, cancelled: bool) -> Step {
        if cancelled {
            self.clean()
        } else if i == 0 {
            self.orphan(0)
        } else {
            self.next_copy(i + 1, cancelled)
        }
    }

    /// The failure of the copy of file `i` is reported.
    pub open spec fn copy_failed(self, i: int, error: Seq<char>) -> Step {
        (
            self.at(StageView::CopyFailed(i)),
            ActionView::Finish { file: self.row(i), outcome: OutcomeView::Failed { error } },
        )
    }

    /// Staged file `j` is removed, after which its outcome is reported.
    pub open spec fn discard(self, j: int, file: PlannedFileView, outcome: OutcomeView) -> Step {
        (
            self.at(StageView::Discarding(j, file, outcome)),
            ActionView::Remove { path: self.staged[j].staged_path },
        )
    }

    /// Goes on with staged file `j`, now that there is a date or none.
    pub open spec fn settle(self, j: int, cancelled: bool) -> Step {
        if cancelled || j >= self.staged.len() {
            self.clean()
        } else if self.date is Some {
            (
                self.at(StageView::Placing(j)),
                self.phase(j, FilePhase::ResolvingDestination),
            )
        } else {
            let reason = "no usable date (no EXIF and no mtime)"@;
            self.discard(
                j,
                self.placed(j, None, PlannedAction::SkipNoDate, Some(reason)),
                OutcomeView::Skipped { reason },
            )
        }
    }

    /// The metadata of the media file is known.
    pub open spec fn with_metadata(self, meta: MetadataView, cancelled: bool) -> Step {
        if cancelled {
            self.clean()
        } else {
            let dated = UnitState { date: metadata::resolved(self.staged[0].mtime, meta), ..self };
            if dated.date is Some && dated.date->0.source != DateSource::DateTimeOriginal {
                (
                    dated.at(StageView::FallbackWarned),
                    ActionView::Emit(
                        EventView::Warning {
                            kind: WarningKind::MetadataFallback,
                            message: self.staged[0].rel_path + ": using "@
                                + dated.date->0.source.name() + " (no DateTimeOriginal)"@,
                            file: Some(self.staged_id(0)),
                        },
                    ),
                )
            } else {
                dated.settle(0, cancelled)
            }
        }
    }

    /// The state and action that follow an event. An event that nobody asked
    /// for ends the work.
    pub open spec fn next(self, e: InputView, cancelled: bool) -> Step {
        match (self.stage, e) {
            (StageView::Ready, InputView::Start) => self.next_copy(0, cancelled),
            (StageView::Started(i), InputView::Sent(ok)) => if !ok {
                self.copy_lost(i, cancelled)
            } else {
                (
                    self.at(StageView::Announced(i)),
                    ActionView::Emit(
                        EventView::FilePhaseChanged {
                            file: self.row(i).id(),
                            phase: FilePhase::Copying,
                        },
                    ),
                )
            },
            (StageView::Announced(i), InputView::Sent(ok)) => if !ok || cancelled {
                self.copy_lost(i, cancelled)
            } else {
                (
                    self.at(StageView::Resolving(i)),
                    ActionView::ResolveSource { file: self.file(i) },
                )
            },
            (StageView::Resolving(i), InputView::SourcePath(r)) => match r {
                Err(m) => self.copy_failed(i, m),
                Ok(p) => if cancelled {
                    self.copy_lost(i, cancelled)
                } else {
                    (
                        self.at(StageView::Copying(i)),
                        ActionView::CopyToStaging {
                            from: p,
                            to: self.staging_path(i),
                            size: self.file(i).size,
                            file: self.row(i).id(),
                        },
                    )
                },
            },
            (StageView::Copying(i), InputView::Copied(r)) => match r {
                Err(m) => self.copy_failed(i, m),
                Ok(_) => {
                    let more = UnitState {
                        staged: self.staged.push(
                            StagedView {
                                staged_path: self.staging_path(i),
                                rel_path: self.file(i).rel_path,
                                size: self.file(i).size,
                                kind: self.kind(i),
                                mtime: self.file(i).mtime,
                            },
                        ),
                        ..self
                    };
                    more.next_copy(i + 1, cancelled)
                },
            },
            (StageView::CopyFailed(i), InputView::Finished) => self.copy_lost(i, cancelled),
            (StageView::Orphaned(k), InputView::Sent(ok)) => if !ok {
                self.clean()
            } else {
                (
                    self.at(StageView::OrphanFailed(k)),
                    ActionView::Finish {
                        file: self.row(k + 1),
                        outcome: OutcomeView::Failed {
                            error: "parent copy failed; sidecar not copied"@,
                        },
                    },
                )
            },
            (StageView::OrphanFailed(k), InputView::Finished) => if cancelled {
                self.clean()
            } else {
                self.orphan(k + 1)
            },
            (StageView::Reading, InputView::Sent(ok)) => if !ok {
                self.clean()
            } else if self.has_exif {
                (
                    self.at(StageView::AwaitMetadata),
                    ActionView::ReadMetadata { path: self.staged[0].staged_path },
                )
            } else {
                self.with_metadata(exiftool::no_metadata(), cancelled)
            },
            (StageView::AwaitMetadata, InputView::Metadata(r)) => match r {
                Ok(meta) => self.with_metadata(meta, cancelled),
                Err(m) => (
                    self.at(StageView::Warned),
                    ActionView::Emit(
                        EventView::Warning {
                            kind: WarningKind::MetadataFallback,
                            message: self.staged[0].rel_path
                                + ": metadata read failed; using file mtime: "@ + m,
                            file: Some(self.staged_id(0)),
                        },
                    ),
                ),
            },
            (StageView::Warned, InputView::Sent(_)) => self.with_metadata(
                exiftool::no_metadata(),
                cancelled,
            ),
            (StageView::FallbackWarned, InputView::Sent(_)) => self.settle(0, cancelled),
            (StageView::Placing(j), InputView::Sent(ok)) => if !ok {
                self.settle(j + 1, cancelled)
            } else {
                match plan::layout_fault(self.cfg, self.unit.parent_kind) {
                    Some(fault) => self.discard(
                        j,
                        self.placed(j, None, PlannedAction::Error, None),
                        OutcomeView::Failed { error: fault.message() },
                    ),
                    None => if cancelled {
                        self.clean()
                    } else {
                        (
                            self.at(StageView::Reserving(j)),
                            ActionView::Reserve {
                                dest: self.dest(j),
                                name: self.staged_name(j),
                                size: self.staged[j].size,
                            },
                        )
                    },
                }
            },
            (StageView::Reserving(j), InputView::Reserved(action, reason)) => match action {
                PlannedAction::Copy => (
                    self.at(StageView::Finalizing(j)),
                    self.phase(j, FilePhase::Finalizing),
                ),
                PlannedAction::Error => self.discard(
                    j,
                    self.placed(j, Some(self.dest(j)), PlannedAction::Error, reason),
                    OutcomeView::Failed {
                        error: match reason {
                            Some(m) => m,
                            None => "destination conflict"@,
                        },
                    },
                ),
                _ => self.discard(
                    j,
                    self.placed(j, Some(self.dest(j)), action, reason),
                    OutcomeView::Skipped {
                        reason: match reason {
                            Some(m) => m,
                            None => "already exists"@,
                        },
                    },
                ),
            },
            (StageView::Finalizing(j), InputView::Sent(ok)) => if !ok {
                self.settle(j + 1, cancelled)
            } else {
                (
                    self.at(StageView::Moving(j)),
                    ActionView::Move { from: self.staged[j].staged_path, to: self.dest(j) },
                )
            },
            (StageView::Moving(j), InputView::Moved(r)) => match r {
                Ok(_) => (
                    self.at(StageView::Settled(j)),
                    ActionView::Finish {
                        file: self.placed(j, Some(self.dest(j)), PlannedAction::Copy, None),
                        outcome: OutcomeView::Copied { bytes: self.staged[j].size },
                    },
                ),
                Err(m) => self.discard(
                    j,
                    self.placed(j, Some(self.dest(j)), PlannedAction::Error, None),
                    OutcomeView::Failed { error: m },
                ),
            },
            (StageView::Discarding(j, file, outcome), InputView::Removed) => (
                self.at(StageView::Settled(j)),
                ActionView::Finish { file, outcome },
            ),
            (StageView::Settled(j), InputView::Finished) => self.settle(j + 1, cancelled),
            (StageView::Cleaning, InputView::Removed) => (
                self.at(StageView::Over),
                ActionView::Done,
            ),
            (StageView::Over, _) => (self, ActionView::Done),
            _ => self.clean(),
        }
    }

    /// The numbers of the stage stand for files that are there.
    pub open spec fn wf(self) -> bool {
        match self.stage {
            StageView::Ready => self.staged.len() == 0 && self.date is None,
            StageView::Started(i) => self.is_copying(i),
            StageView::Announced(i) => self.is_copying(i),
            StageView::Resolving(i) => self.is_copying(i),
            StageView::Copying(i) => self.is_copying(i),
            StageView::CopyFailed(i) => self.is_copying(i),
            StageView::Orphaned(k) => 0 <= k < self.unit.sidecars.len() && self.staged.len() == 0,
            StageView::OrphanFailed(k) => 0 <= k < self.unit.sidecars.len() && self.staged.len()
                == 0,
            StageView::Reading => self.is_staged() && self.date is None,
            StageView::AwaitMetadata => self.is_staged() && self.date is None,
            StageView::Warned => self.is_staged() && self.date is None,
            StageView::FallbackWarned => self.is_staged() && self.date is Some,
            StageView::Placing(j) => self.is_placing(j),
            StageView::Reserving(j) => self.is_placing(j),
            StageView::Finalizing(j) => self.is_placing(j),
            StageView::Moving(j) => self.is_placing(j),
            StageView::Discarding(j, _, _) => self.is_staged() && 0 <= j < self.staged.len(),
            StageView::Settled(j) => self.is_staged() && 0 <= j < self.staged.len(),
            StageView::Cleaning => true,
            StageView::Over => true,
        }
    }

    /// File `i` is being copied; the media file was staged before any sidecar.
    pub open spec fn is_copying(self, i: int) -> bool {
        &&& 0 <= i < self.count()
        &&& self.staged.len() <= i
        &&& i > 0 ==> self.staged.len() > 0
        &&& self.date is None
    }

    /// Files are staged, the media file first.
    pub open spec fn is_staged(self) -> bool {
        0 < self.staged.len() <= self.count()
    }

    /// Staged file `j` is being placed.
    pub open spec fn is_placing(self, j: int) -> bool {
        self.is_staged() && 0 <= j < self.staged.len() && self.date is Some
    }
}

/// The work on a unit.
#[derive(Debug)]
pub struct UnitRun {
    cfg: EngineConfig,
    source: SourceId,
    unit: CopyUnit,
    seq_dir: String,
    has_exif: bool,
    staged: Vec<StagedFile>,
    date: Option<ResolvedMetadata>,
    stage: Stage,
}

impl View for UnitRun {
    type V = UnitState;

    closed spec fn view(&self) -> UnitState {
        UnitState {
            cfg: self.cfg@,
            source: self.source@,
            unit: self.unit@,
            seq_dir: self.seq_dir@,
            has_exif: self.has_exif,
            staged: staged_view(self.staged@),
            date: metadata::opt_resolved(self.date),
            stage: self.stage@,
        }
    }
}

/// The staging directory of a unit: below the root that its files go to, under
/// its number.
pub open spec fn staging_dir(cfg: EngineConfigView, kind: MediaKind, seq: u64) -> Seq<char> {
    path::join(
        path::join(plan::root_for(cfg, kind), STAGING_DIR_NAME@),
        text::decimal(seq as nat),
    )
}

/// The work on a unit that has not begun.
pub open spec fn fresh(
    cfg: EngineConfigView,
    source: Seq<char>,
    unit: UnitView,
    seq: u64,
    has_exif: bool,
) -> UnitState {
    UnitState {
        cfg,
        source,
        unit,
        seq_dir: staging_dir(cfg, unit.parent_kind, seq),
        has_exif,
        staged: Seq::empty(),
        date: None,
        stage: StageView::Ready,
    }
}

fn failed(error: &str) -> (r: FileOutcome)
    ensures
        r@ == (OutcomeView::Failed { error: error@ }),
{
    FileOutcome::Failed { error: text::copy_str(error) }
}

impl UnitRun {
    /// The work on a unit. `seq` numbers the units of a run; `has_exif` tells
    /// whether ExifTool can be asked.
    pub fn new(cfg: EngineConfig, source: SourceId, unit: CopyUnit, seq: u64, has_exif: bool) -> (r:
        Self)
        ensures
            r@ == fresh(cfg@, source@, unit@, seq, has_exif),
            r@.wf(),
    {
        let root = match unit.parent_kind {
            MediaKind::Video => &cfg.videos_root,
            _ => &cfg.images_root,
        };
        let staging = path::join_path(root.as_str(), STAGING_DIR_NAME);
        let number = text::decimal_text(seq);
        let seq_dir = path::join_path(staging.as_str(), number.as_str());
        let r = UnitRun {
            cfg,
            source,
            unit,
            seq_dir,
            has_exif,
            staged: Vec::new(),
            date: None,
            stage: Stage::Ready,
        };
        proof {
            assert(r@.staged =~= Seq::<StagedView>::empty());
        }
        r
    }

    fn file(&self, i: usize) -> (r: &SourceFile)
        requires
            i < self@.count(),
        ensures
            r@ == self@.file(i as int),
    {
        if i == 0 {
            &self.unit.parent
        } else {
            &self.unit.sidecars[i - 1]
        }
    }

    fn kind(&self, i: usize) -> (r: MediaKind)
        ensures
            r == self@.kind(i as int),
    {
        if i == 0 {
            self.unit.parent_kind
        } else {
            MediaKind::Sidecar
        }
    }

    fn row(&self, i: usize) -> (r: PlannedFile)
        requires
            i < self@.count(),
        ensures
            r@ == self@.row(i as int),
    {
        plan::provisional_file(&self.source, self.file(i), self.kind(i))
    }

    fn staging_path(&self, i: usize) -> (r: String)
        requires
            i < self@.count(),
        ensures
            r@ == self@.staging_path(i as int),
    {
        let name = plan::file_name_of(self.file(i).rel_path.as_str());
        path::join_path(self.seq_dir.as_str(), name.as_str())
    }

    fn staged_id(&self, j: usize) -> (r: FileId)
        requires
            j < self@.staged.len(),
        ensures
            r@ == self@.staged_id(j as int),
    {
        FileId { source: self.source.clone(), rel_path: self.staged[j].rel_path.clone() }
    }

    fn phase(&self, j: usize, phase: FilePhase) -> (r: UnitAction)
        requires
            j < self@.staged.len(),
        ensures
            r@ == self@.phase(j as int, phase),
    {
        UnitAction::Emit(EngineEvent::FilePhaseChanged { file: self.staged_id(j), phase })
    }

    fn placed(
        &self,
        j: usize,
        dest: Option<String>,
        action: PlannedAction,
        reason: Option<String>,
    ) -> (r: PlannedFile)
        requires
            j < self@.staged.len(),
        ensures
            r@ == self@.placed(j as int, text::opt_text(dest), action, text::opt_text(reason)),
    {
        let f = &self.staged[j];
        let (datetime, date_source) = match &self.date {
            Some(d) => (Some(d.datetime), Some(DateSourceWire::from(d.source))),
            None => (None, None),
        };
        PlannedFile {
            source: self.source.clone(),
            source_rel_path: f.rel_path.clone(),
            source_size: f.size,
            kind: MediaKindWire::from(f.kind),
            action,
            dest_path: dest,
            datetime,
            date_source,
            reason,
        }
    }

    fn dest(&self, j: usize) -> (r: Result<String>)
        requires
            j < self@.staged.len(),
            self@.date is Some,
        ensures
            match plan::layout_fault(self@.cfg, self@.unit.parent_kind) {
                None => r is Ok && r->Ok_0@ == self@.dest(j as int),
                Some(e) => r is Err && r->Err_0@ == e,
            },
    {
        let name = plan::file_name_of(self.staged[j].rel_path.as_str());
        match &self.date {
            Some(d) => plan::dest_path_for(
                &self.cfg,
                self.unit.parent_kind,
                &d.datetime,
                name.as_str(),
            ),
            None => Err(Error::Cancelled),
        }
    }

    fn clean(&mut self) -> (r: UnitAction)
        ensures
            final(self)@ == old(self)@.clean().0,
            r@ == old(self)@.clean().1,
    {
        self.stage = Stage::Cleaning;
        UnitAction::RemoveDir { path: self.seq_dir.clone() }
    }

    fn begin(&mut self, cancelled: bool) -> (r: UnitAction)
        ensures
            final(self)@ == old(self)@.next_copy(0, cancelled).0,
            r@ == old(self)@.next_copy(0, cancelled).1,
    {
        if cancelled {
            return self.clean();
        }
        self.stage = Stage::Started(0);
        UnitAction::Emit(EngineEvent::FileStarted { file: self.row(0) })
    }

    /// Goes on after file `i`.
    fn copy_next(&mut self, i: usize, cancelled: bool) -> (r: UnitAction)
        requires
            old(self)@.staged.len() > 0,
        ensures
            final(self)@ == old(self)@.next_copy(i + 1, cancelled).0,
            r@ == old(self)@.next_copy(i + 1, cancelled).1,
    {
        if cancelled {
            return self.clean();
        }
        if i >= self.unit.sidecars.len() {
            self.stage = Stage::Reading;
            self.phase(0, FilePhase::ReadingMetadata)
        } else {
            self.stage = Stage::Started(i + 1);
            UnitAction::Emit(EngineEvent::FileStarted { file: self.row(i + 1) })
        }
    }

    fn orphan(&mut self, k: usize) -> (r: UnitAction)
        ensures
            final(self)@ == old(self)@.orphan(k as int).0,
            r@ == old(self)@.orphan(k as int).1,
    {
        if k >= self.unit.sidecars.len() {
            return self.clean();
        }
        self.stage = Stage::Orphaned(k);
        UnitAction::Emit(EngineEvent::FileStarted { file: self.row(k + 1) })
    }

    fn copy_lost(&mut self, i: usize, cancelled: bool) -> (r: UnitAction)
        requires
            old(self)@.is_copying(i as int),
        ensures
            final(self)@ == old(self)@.copy_lost(i as int, cancelled).0,
            r@ == old(self)@.copy_lost(i as int, cancelled).1,
    {
        if cancelled {
            self.clean()
        } else if i == 0 {
            self.orphan(0)
        } else {
            self.copy_next(i, cancelled)
        }
    }

    fn copy_failed(&mut self, i: usize, error: String) -> (r: UnitAction)
        requires
            i < old(self)@.count(),
        ensures
            final(self)@ == old(self)@.copy_failed(i as int, error@).0,
            r@ == old(self)@.copy_failed(i as int, error@).1,
    {
        self.stage = Stage::CopyFailed(i);
        UnitAction::Finish { file: self.row(i), outcome: FileOutcome::Failed { error } }
    }

    fn discard(&mut self, j: usize, file: PlannedFile, outcome: FileOutcome) -> (r: UnitAction)
        requires
            j < old(self)@.staged.len(),
        ensures
            final(self)@ == old(self)@.discard(j as int, file@, outcome@).0,
            r@ == old(self)@.discard(j as int, file@, outcome@).1,
    {
        self.stage = Stage::Discarding(j, file, outcome);
        UnitAction::Remove { path: self.staged[j].staged_path.clone() }
    }

    fn settle(&mut self, j: usize, cancelled: bool) -> (r: UnitAction)
        ensures
            final(self)@ == old(self)@.settle(j as int, cancelled).0,
            r@ == old(self)@.settle(j as int, cancelled).1,
    {
        if cancelled || j >= self.staged.len() {
            return self.clean();
        }
        if self.date.is_some() {
            self.stage = Stage::Placing(j);
            self.phase(j, FilePhase::ResolvingDestination)
        } else {
            let reason = text::copy_str("no usable date (no EXIF and no mtime)");
            let file = self.placed(j, None, PlannedAction::SkipNoDate, Some(reason.clone()));
            self.discard(j, file, FileOutcome::Skipped { reason })
        }
    }

    fn with_metadata(&mut self, meta: &FileMetadata, cancelled: bool) -> (r: UnitAction)
        requires
            old(self)@.is_staged(),
        ensures
            final(self)@ == old(self)@.with_metadata(meta@, cancelled).0,
            r@ == old(self)@.with_metadata(meta@, cancelled).1,
    {
        if cancelled {
            return self.clean();
        }
        let parent = &self.staged[0];
        let synthetic = SourceFile {
            rel_path: parent.rel_path.clone(),
            size: parent.size,
            mtime: parent.mtime,
            extension: String::new(),
            backend_handle: BackendHandle::Path(
                NativePath::of_text(parent.staged_path.as_str()),
            ),
        };
        let date = metadata::resolve_one(&synthetic, meta);
        let warning = match &date {
            Some(d) => {
                if d.source.is_fallback() {
                    let mut message = parent.rel_path.clone();
                    message.append(": using ");
                    message.append(d.source.label());
                    message.append(" (no DateTimeOriginal)");
                    Some(message)
                } else {
                    None
                }
            },
            None => None,
        };
        self.date = date;
        match warning {
            Some(message) => {
                self.stage = Stage::FallbackWarned;
                UnitAction::Emit(
                    EngineEvent::Warning {
                        kind: WarningKind::MetadataFallback,
                        message,
                        file: Some(self.staged_id(0)),
                    },
                )
            },
            None => self.settle(0, cancelled),
        }
    }

    fn on_source_path(
        &mut self,
        i: usize,
        result: std::result::Result<NativePath, String>,
        cancelled: bool,
    ) -> (r: UnitAction)
        requires
            old(self)@.stage == StageView::Resolving(i as int),
            old(self)@.wf(),
        ensures
            ({
                let e = UnitEvent::SourcePath(result);
                final(self)@ == old(self)@.next(e@, cancelled).0 && r@ == old(self)@.next(
                    e@,
                    cancelled,
                ).1
            }),
    {
        match result {
            Err(m) => self.copy_failed(i, m),
            Ok(p) => {
                if cancelled {
                    return self.clean();
                }
                let to = self.staging_path(i);
                let size: u64 = self.file(i).size;
                let file = self.row(i).id();
                self.stage = Stage::Copying(i);
                UnitAction::CopyToStaging { from: p, to, size, file }
            },
        }
    }

    fn on_copied(
        &mut self,
        i: usize,
        result: std::result::Result<(), String>,
        cancelled: bool,
    ) -> (r: UnitAction)
        requires
            old(self)@.stage == StageView::Copying(i as int),
            old(self)@.wf(),
        ensures
            ({
                let e = UnitEvent::Copied(result);
                final(self)@ == old(self)@.next(e@, cancelled).0 && r@ == old(self)@.next(
                    e@,
                    cancelled,
                ).1
            }),
    {
        match result {
            Err(m) => self.copy_failed(i, m),
            Ok(_) => {
                let f = self.file(i);
                let staged = StagedFile {
                    staged_path: self.staging_path(i),
                    rel_path: f.rel_path.clone(),
                    size: f.size,
                    kind: self.kind(i),
                    mtime: f.mtime,
                };
                let ghost before = self.staged@;
                proof {
                    assert(staged_view(before.push(staged)) =~= staged_view(before).push(staged@));
                }
                self.staged.push(staged);
                self.copy_next(i, cancelled)
            },
        }
    }

    fn on_metadata(
        &mut self,
        result: std::result::Result<Vec<FileMetadata>, String>,
        cancelled: bool,
    ) -> (r: UnitAction)
        requires
            old(self)@.stage is AwaitMetadata,
            old(self)@.wf(),
        ensures
            ({
                let e = UnitEvent::Metadata(result);
                final(self)@ == old(self)@.next(e@, cancelled).0 && r@ == old(self)@.next(
                    e@,
                    cancelled,
                ).1
            }),
    {
        match result {
            Ok(v) => {
                let meta = exiftool::last_metadata(&v);
                self.with_metadata(&meta, cancelled)
            },
            Err(m) => {
                let mut message = self.staged[0].rel_path.clone();
                message.append(": metadata read failed; using file mtime: ");
                message.append(m.as_str());
                self.stage = Stage::Warned;
                UnitAction::Emit(
                    EngineEvent::Warning {
                        kind: WarningKind::MetadataFallback,
                        message,
                        file: Some(self.staged_id(0)),
                    },
                )
            },
        }
    }

    fn on_placing(&mut self, j: usize, sent: bool, cancelled: bool) -> (r: UnitAction)
        requires
            old(self)@.stage == StageView::Placing(j as int),
            old(self)@.wf(),
        ensures
            final(self)@ == old(self)@.next(InputView::Sent(sent), cancelled).0,
            r@ == old(self)@.next(InputView::Sent(sent), cancelled).1,
    {
        let n: usize = self.staged.len();
        if !sent {
            return self.settle(j + 1, cancelled);
        }
        match self.dest(j) {
            Err(e) => {
                let file = self.placed(j, None, PlannedAction::Error, None);
                let outcome = FileOutcome::Failed { error: e.to_string() };
                self.discard(j, file, outcome)
            },
            Ok(dest) => {
                if cancelled {
                    return self.clean();
                }
                let name = plan::file_name_of(self.staged[j].rel_path.as_str());
                let size: u64 = self.staged[j].size;
                self.stage = Stage::Reserving(j);
                UnitAction::Reserve { dest, name, size }
            },
        }
    }

    fn on_reserved(&mut self, j: usize, action: PlannedAction, reason: Option<String>) -> (r:
        UnitAction)
        requires
            old(self)@.stage == StageView::Reserving(j as int),
            old(self)@.wf(),
            plan::layout_fault(old(self)@.cfg, old(self)@.unit.parent_kind) is None,
        ensures
            ({
                let e = UnitEvent::Reserved(action, reason);
                forall|cancelled: bool|
                    final(self)@ == (#[trigger] old(self)@.next(e@, cancelled)).0 && r@ == old(
                        self,
                    )@.next(e@, cancelled).1
            }),
    {
        if action == PlannedAction::Copy {
            self.stage = Stage::Finalizing(j);
            return self.phase(j, FilePhase::Finalizing);
        }
        let dest = match self.dest(j) {
            Ok(d) => Some(d),
            Err(_) => None,
        };
        if action == PlannedAction::Error {
            let error = match &reason {
                Some(m) => m.clone(),
                None => text::copy_str("destination conflict"),
            };
            let file = self.placed(j, dest, PlannedAction::Error, reason);
            self.discard(j, file, FileOutcome::Failed { error })
        } else {
            let skipped = match &reason {
                Some(m) => m.clone(),
                None => text::copy_str("already exists"),
            };
            let file = self.placed(j, dest, action, reason);
            self.discard(j, file, FileOutcome::Skipped { reason: skipped })
        }
    }

    fn on_finalizing(&mut self, j: usize, sent: bool, cancelled: bool) -> (r: UnitAction)
        requires
            old(self)@.stage == StageView::Finalizing(j as int),
            old(self)@.wf(),
            plan::layout_fault(old(self)@.cfg, old(self)@.unit.parent_kind) is None,
        ensures
            final(self)@ == old(self)@.next(InputView::Sent(sent), cancelled).0,
            r@ == old(self)@.next(InputView::Sent(sent), cancelled).1,
    {
        let n: usize = self.staged.len();
        if !sent {
            return self.settle(j + 1, cancelled);
        }
        let from = self.staged[j].staged_path.clone();
        match self.dest(j) {
            Ok(to) => {
                self.stage = Stage::Moving(j);
                UnitAction::Move { from, to }
            },
            Err(_) => self.clean(),
        }
    }

    fn on_moved(&mut self, j: usize, result: std::result::Result<(), String>) -> (r: UnitAction)
        requires
            old(self)@.stage == StageView::Moving(j as int),
            old(self)@.wf(),
            plan::layout_fault(old(self)@.cfg, old(self)@.unit.parent_kind) is None,
        ensures
            ({
                let e = UnitEvent::Moved(result);
                forall|cancelled: bool|
                    final(self)@ == (#[trigger] old(self)@.next(e@, cancelled)).0 && r@ == old(
                        self,
                    )@.next(e@, cancelled).1
            }),
    {
        let dest = match self.dest(j) {
            Ok(d) => Some(d),
            Err(_) => None,
        };
        match result {
            Ok(_) => {
                let file = self.placed(j, dest, PlannedAction::Copy, None);
                let bytes: u64 = self.staged[j].size;
                self.stage = Stage::Settled(j);
                UnitAction::Finish { file, outcome: FileOutcome::Copied { bytes } }
            },
            Err(m) => {
                let file = self.placed(j, dest, PlannedAction::Error, None);
                self.discard(j, file, FileOutcome::Failed { error: m })
            },
        }
    }
}

impl UnitRun {
    /// Takes what came of the last action and says what is to be done next.
    /// `cancelled` tells whether the run is to stop.
    pub fn step(&mut self, event: UnitEvent, cancelled: bool) -> (r: UnitAction)
        requires
            old(self)@.wf(),
            old(self)@.routable(),
        ensures
            final(self)@ == old(self)@.next(event@, cancelled).0,
            r@ == old(self)@.next(event@, cancelled).1,
            final(self)@.wf(),
            final(self)@.routable(),
    {
        let ghost before = self@;
        let sidecars: usize = self.unit.sidecars.len();
        let mut stage = Stage::Over;
        std::mem::swap(&mut stage, &mut self.stage);
        let ghost parked = self@;
        proof {
            assert(parked == before.at(StageView::Over));
        }
        let r = match (stage, event) {
            (Stage::Ready, UnitEvent::Start) => self.begin(cancelled),
            (Stage::Started(i), UnitEvent::Sent(ok)) => {
                self.stage = Stage::Started(i);
                if !ok {
                    self.copy_lost(i, cancelled)
                } else {
                    let file = self.row(i).id();
                    self.stage = Stage::Announced(i);
                    UnitAction::Emit(
                        EngineEvent::FilePhaseChanged { file, phase: FilePhase::Copying },
                    )
                }
            },
            (Stage::Announced(i), UnitEvent::Sent(ok)) => {
                self.stage = Stage::Announced(i);
                if !ok || cancelled {
                    self.copy_lost(i, cancelled)
                } else {
                    let file = self.file(i).clone();
                    self.stage = Stage::Resolving(i);
                    UnitAction::ResolveSource { file }
                }
            },
            (Stage::Resolving(i), UnitEvent::SourcePath(result)) => {
                self.stage = Stage::Resolving(i);
                self.on_source_path(i, result, cancelled)
            },
            (Stage::Copying(i), UnitEvent::Copied(result)) => {
                self.stage = Stage::Copying(i);
                self.on_copied(i, result, cancelled)
            },
            (Stage::CopyFailed(i), UnitEvent::Finished) => {
                self.stage = Stage::CopyFailed(i);
                self.copy_lost(i, cancelled)
            },
            (Stage::Orphaned(k), UnitEvent::Sent(ok)) => {
                if !ok {
                    self.clean()
                } else {
                    let file = self.row(k + 1);
                    self.stage = Stage::OrphanFailed(k);
                    UnitAction::Finish {
                        file,
                        outcome: failed("parent copy failed; sidecar not copied"),
                    }
                }
            },
            (Stage::OrphanFailed(k), UnitEvent::Finished) => {
                if cancelled {
                    self.clean()
                } else {
                    self.orphan(k + 1)
                }
            },
            (Stage::Reading, UnitEvent::Sent(ok)) => {
                if !ok {
                    self.clean()
                } else if self.has_exif {
                    self.stage = Stage::AwaitMetadata;
                    UnitAction::ReadMetadata { path: self.staged[0].staged_path.clone() }
                } else {
                    self.with_metadata(&FileMetadata::default(), cancelled)
                }
            },
            (Stage::AwaitMetadata, UnitEvent::Metadata(result)) => {
                self.stage = Stage::AwaitMetadata;
                self.on_metadata(result, cancelled)
            },
            (Stage::Warned, UnitEvent::Sent(_)) => self.with_metadata(
                &FileMetadata::default(),
                cancelled,
            ),
            (Stage::FallbackWarned, UnitEvent::Sent(_)) => self.settle(0, cancelled),
            (Stage::Placing(j), UnitEvent::Sent(ok)) => {
                self.stage = Stage::Placing(j);
                self.on_placing(j, ok, cancelled)
            },
            (Stage::Reserving(j), UnitEvent::Reserved(action, reason)) => {
                self.stage = Stage::Reserving(j);
                self.on_reserved(j, action, reason)
            },
            (Stage::Finalizing(j), UnitEvent::Sent(ok)) => {
                self.stage = Stage::Finalizing(j);
                self.on_finalizing(j, ok, cancelled)
            },
            (Stage::Moving(j), UnitEvent::Moved(result)) => {
                self.stage = Stage::Moving(j);
                self.on_moved(j, result)
            },
            (Stage::Discarding(j, file, outcome), UnitEvent::Removed) => {
                self.stage = Stage::Settled(j);
                UnitAction::Finish { file, outcome }
            },
            (Stage::Settled(j), UnitEvent::Finished) => {
                let n: usize = self.staged.len();
                self.settle(j + 1, cancelled)
            },
            (Stage::Cleaning, UnitEvent::Removed) => UnitAction::Done,
            (Stage::Over, _) => UnitAction::Done,
            _ => self.clean(),
        };
        proof {
            before.lemma_next_wf(event@, cancelled);
        }
        r
    }
}

impl UnitState {
    /// A file that is being placed has a folder layout that can be read.
    pub open spec fn routable(self) -> bool {
        self.stage is Reserving || self.stage is Finalizing || self.stage is Moving
            ==> plan::layout_fault(self.cfg, self.unit.parent_kind) is None
    }

    proof fn lemma_next_copy_wf(self, i: int, cancelled: bool)
        requires
            0 <= i <= self.count(),
            self.staged.len() <= i,
            i > 0 ==> self.staged.len() > 0,
            self.date is None,
        ensures
            self.next_copy(i, cancelled).0.wf(),
            self.next_copy(i, cancelled).0.routable(),
    {
    }

    proof fn lemma_orphan_wf(self, k: int)
        requires
            0 <= k,
            self.staged.len() == 0,
        ensures
            self.orphan(k).0.wf(),
            self.orphan(k).0.routable(),
    {
    }

    proof fn lemma_copy_lost_wf(self, i: int, cancelled: bool)
        requires
            self.is_copying(i),
        ensures
            self.copy_lost(i, cancelled).0.wf(),
            self.copy_lost(i, cancelled).0.routable(),
    {
        if i == 0 {
            self.lemma_orphan_wf(0);
        } else {
            self.lemma_next_copy_wf(i + 1, cancelled);
        }
    }

    proof fn lemma_settle_wf(self, j: int, cancelled: bool)
        requires
            self.is_staged(),
            0 <= j,
        ensures
            self.settle(j, cancelled).0.wf(),
            self.settle(j, cancelled).0.routable(),
    {
    }

    proof fn lemma_with_metadata_wf(self, meta: MetadataView, cancelled: bool)
        requires
            self.is_staged(),
        ensures
            self.with_metadata(meta, cancelled).0.wf(),
            self.with_metadata(meta, cancelled).0.routable(),
    {
        let dated = UnitState { date: metadata::resolved(self.staged[0].mtime, meta), ..self };
        dated.lemma_settle_wf(0, cancelled);
    }

    proof fn lemma_next_wf(self, e: InputView, cancelled: bool)
        requires
            self.wf(),
            self.routable(),
        ensures
            self.next(e, cancelled).0.wf(),
            self.next(e, cancelled).0.routable(),
    {
        let n = self.next(e, cancelled).0;
        match self.stage {
            StageView::Ready => {
                self.lemma_next_copy_wf(0, cancelled);
            },
            StageView::Started(i) => {
                self.lemma_copy_lost_wf(i, cancelled);
            },
            StageView::Announced(i) => {
                self.lemma_copy_lost_wf(i, cancelled);
            },
            StageView::Resolving(i) => {
                self.lemma_copy_lost_wf(i, cancelled);
            },
            StageView::Copying(i) => {
                let more = UnitState {
                    staged: self.staged.push(
                        StagedView {
                            staged_path: self.staging_path(i),
                            rel_path: self.file(i).rel_path,
                            size: self.file(i).size,
                            kind: self.kind(i),
                            mtime: self.file(i).mtime,
                        },
                    ),
                    ..self
                };
                more.lemma_next_copy_wf(i + 1, cancelled);
            },
            StageView::CopyFailed(i) => {
                self.lemma_copy_lost_wf(i, cancelled);
            },
            StageView::Orphaned(k) => {},
            StageView::OrphanFailed(k) => {
                self.lemma_orphan_wf(k + 1);
            },
            StageView::Reading => {
                self.lemma_with_metadata_wf(exiftool::no_metadata(), cancelled);
            },
            StageView::AwaitMetadata => {
                if let InputView::Metadata(Ok(meta)) = e {
                    self.lemma_with_metadata_wf(meta, cancelled);
                }
            },
            StageView::Warned => {
                self.lemma_with_metadata_wf(exiftool::no_metadata(), cancelled);
            },
            StageView::FallbackWarned => {
                self.lemma_settle_wf(0, cancelled);
            },
            StageView::Placing(j) => {
                self.lemma_settle_wf(j + 1, cancelled);
            },
            StageView::Reserving(j) => {},
            StageView::Finalizing(j) => {
                self.lemma_settle_wf(j + 1, cancelled);
            },
            StageView::Moving(j) => {},
            StageView::Discarding(j, _, _) => {},
            StageView::Settled(j) => {
                self.lemma_settle_wf(j + 1, cancelled);
            },
            StageView::Cleaning => {},
            StageView::Over => {},
        }
    }
}

} // verus!
