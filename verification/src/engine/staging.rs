//! Copying the files of a plan: the units are handed to workers, a few at a
//! time, between two sweeps of the staging directories.

use vstd::prelude::*;
use crate::config::{EngineConfig, EngineConfigView};
use crate::error::{Error, ErrorView};
use crate::events::{
    self, EngineEvent, EventView, FileOutcome, OutcomeView, PlannedFile, PlannedFileView,
    SyncSummary, WarningKind,
};
use crate::index::STAGING_DIR_NAME;
use crate::path;
use crate::plan::{self, CopyUnit, PlanView, SyncPlan, UnitView};
use crate::text;
use super::execute;
use super::Counters;

verus! {

/// What is to be done next.
#[derive(Debug)]
#[allow(inconsistent_fields)]
pub enum StagingAction {
    /// Remove a directory with all it holds, if it is there. Answered by
    /// `Removed`.
    RemoveDir { path: String },
    /// Send an event. Answered by `Sent`.
    Emit(EngineEvent),
    /// Count an outcome and send it. Answered by `Finished`.
    Finish { file: PlannedFile, outcome: FileOutcome },
    /// Start ExifTool. Answered by `Exif`.
    SpawnExif,
    /// Wait for a free worker. Answered by `Slot`.
    AcquireSlot,
    /// Hand a unit to the worker. Answered by `UnitStarted`.
    StartUnit { unit: CopyUnit, seq: u64, has_exif: bool },
    /// Wait for all workers. Answered by `Joined`.
    JoinWorkers,
    /// Stop ExifTool. Answered by `ShutDown`.
    ShutdownExif,
    /// Read the counters. Answered by `Totals`.
    Summarize,
    /// The run failed.
    Fail(Error),
    /// The run is complete.
    Complete(SyncSummary),
}

/// The contents of a [`StagingAction`].
#[allow(inconsistent_fields)]
pub enum StagingActionView {
    RemoveDir { path: Seq<char> },
    Emit(EventView),
    Finish { file: PlannedFileView, outcome: OutcomeView },
    SpawnExif,
    AcquireSlot,
    StartUnit { unit: UnitView, seq: u64, has_exif: bool },
    JoinWorkers,
    ShutdownExif,
    Summarize,
    Fail(ErrorView),
    Complete(SyncSummary),
}

impl View for StagingAction {
    type V = StagingActionView;

    open spec fn view(&self) -> StagingActionView {
        match self {
            StagingAction::RemoveDir { path } => StagingActionView::RemoveDir { path: path@ },
            StagingAction::Emit(e) => StagingActionView::Emit(e@),
            StagingAction::Finish { file, outcome } => StagingActionView::Finish {
                file: file@,
                outcome: outcome@,
            },
            StagingAction::SpawnExif => StagingActionView::SpawnExif,
            StagingAction::AcquireSlot => StagingActionView::AcquireSlot,
            StagingAction::StartUnit { unit, seq, has_exif } => StagingActionView::StartUnit {
                unit: unit@,
                seq: *seq,
                has_exif: *has_exif,
            },
            StagingAction::JoinWorkers => StagingActionView::JoinWorkers,
            StagingAction::ShutdownExif => StagingActionView::ShutdownExif,
            StagingAction::Summarize => StagingActionView::Summarize,
            StagingAction::Fail(e) => StagingActionView::Fail(e@),
            StagingAction::Complete(s) => StagingActionView::Complete(*s),
        }
    }
}

/// What came of the last action. Failures come with their message.
#[derive(Debug)]
pub enum StagingEvent {
    Start,
    Removed,
    /// Whether anyone still listens.
    Sent(bool),
    Finished,
    Exif(std::result::Result<(), String>),
    /// Whether a worker is free; not if there are no workers any more.
    Slot(bool),
    UnitStarted,
    /// The message of the first worker that ended unexpectedly.
    Joined(Option<String>),
    ShutDown,
    Totals(Counters),
}

/// The contents of a [`StagingEvent`].
pub enum StagingInput {
    Start,
    Removed,
    Sent(bool),
    Finished,
    Exif(std::result::Result<(), Seq<char>>),
    Slot(bool),
    UnitStarted,
    Joined(Option<Seq<char>>),
    ShutDown,
    Totals(Counters),
}

impl View for StagingEvent {
    type V = StagingInput;

    open spec fn view(&self) -> StagingInput {
        match self {
            StagingEvent::Start => StagingInput::Start,
            StagingEvent::Removed => StagingInput::Removed,
            StagingEvent::Sent(ok) => StagingInput::Sent(*ok),
            StagingEvent::Finished => StagingInput::Finished,
            StagingEvent::Exif(Ok(_)) => StagingInput::Exif(Ok(())),
            StagingEvent::Exif(Err(m)) => StagingInput::Exif(Err(m@)),
            StagingEvent::Slot(ok) => StagingInput::Slot(*ok),
            StagingEvent::UnitStarted => StagingInput::UnitStarted,
            StagingEvent::Joined(m) => StagingInput::Joined(text::opt_text(*m)),
            StagingEvent::ShutDown => StagingInput::ShutDown,
            StagingEvent::Totals(c) => StagingInput::Totals(*c),
        }
    }
}

/// Where the run stands: what was asked for last.
#[derive(Debug, Clone, Copy, PartialEq, Eq, Structural)]
pub enum StagingStage {
    Ready,
    /// A staging directory is being swept before the start.
    SweepImages,
    SweepVideos,
    /// A decided file was announced.
    Announcing(usize),
    /// Its outcome was reported.
    Reporting(usize),
    /// ExifTool is being started.
    Spawning,
    /// The failure to start it was reported.
    ExifWarned,
    /// A worker is waited for.
    Acquiring(usize),
    /// A unit is being handed over.
    Launching(usize),
    /// The workers are waited for.
    Joining,
    /// ExifTool is being stopped.
    Stopping,
    /// A staging directory is being swept at the end.
    EndImages,
    EndVideos,
    /// The counters are being read.
    Totalling,
    /// The end was announced.
    Finishing(SyncSummary),
    Over,
}

/// The state of a run.
pub struct StagingState {
    pub cfg: EngineConfigView,
    pub rows: Seq<PlannedFileView>,
    pub units: Seq<UnitView>,
    pub total: u64,
    pub has_exif: bool,
    pub worker_error: Option<Seq<char>>,
    pub stage: StagingStage,
}

/// A state and what is to be done in it.
pub type Step = (StagingState, StagingActionView);

impl StagingState {
    pub open spec fn at(self, stage: StagingStage) -> StagingState {
        StagingState { stage, ..self }
    }

    pub open spec fn images_staging(self) -> Seq<char> {
        path::join(self.cfg.images_root, STAGING_DIR_NAME@)
    }

    pub open spec fn videos_staging(self) -> Seq<char> {
        path::join(self.cfg.videos_root, STAGING_DIR_NAME@)
    }

    /// The staging directories are swept at the end.
    pub open spec fn sweep(self) -> Step {
        (
            self.at(StagingStage::EndImages),
            StagingActionView::RemoveDir { path: self.images_staging() },
        )
    }

    /// Goes on with the next decided file, or with the units.
    pub open spec fn decided(self, i: int, cancelled: bool) -> Step {
        if cancelled {
            self.sweep()
        } else if i >= self.rows.len() {
            (self.at(StagingStage::Spawning), StagingActionView::SpawnExif)
        } else {
            (
                self.at(StagingStage::Announcing(i as usize)),
                StagingActionView::Emit(EventView::FileStarted { file: self.rows[i] }),
            )
        }
    }

    /// Goes on with the next unit, or waits for the workers.
    pub open spec fn launch(self, k: int, cancelled: bool) -> Step {
        if cancelled || k >= self.units.len() {
            (self.at(StagingStage::Joining), StagingActionView::JoinWorkers)
        } else {
            (self.at(StagingStage::Acquiring(k as usize)), StagingActionView::AcquireSlot)
        }
    }

    /// The state and action that follow an event. An event that nobody asked
    /// for ends the run, after a last sweep.
    pub open spec fn next(self, e: StagingInput, cancelled: bool) -> Step {
        match (self.stage, e) {
            (StagingStage::Ready, StagingInput::Start) => (
                self.at(StagingStage::SweepImages),
                StagingActionView::RemoveDir { path: self.images_staging() },
            ),
            (StagingStage::SweepImages, StagingInput::Removed) => (
                self.at(StagingStage::SweepVideos),
                StagingActionView::RemoveDir { path: self.videos_staging() },
            ),
            (StagingStage::SweepVideos, StagingInput::Removed) => self.decided(0, cancelled),
            (StagingStage::Announcing(i), StagingInput::Sent(ok)) => if !ok {
                self.decided(i + 1, cancelled)
            } else {
                (
                    self.at(StagingStage::Reporting(i)),
                    StagingActionView::Finish {
                        file: self.rows[i as int],
                        outcome: execute::decided_outcome(self.rows[i as int]),
                    },
                )
            },
            (StagingStage::Reporting(i), StagingInput::Finished) => self.decided(i + 1, cancelled),
            (StagingStage::Spawning, StagingInput::Exif(r)) => match r {
                Ok(_) => (StagingState { has_exif: true, ..self }).launch(0, cancelled),
                Err(m) => (
                    self.at(StagingStage::ExifWarned),
                    StagingActionView::Emit(
                        EventView::Warning {
                            kind: WarningKind::ExifToolUnavailable,
                            message: "exiftool unavailable, dating by file mtime only: "@ + m,
                            file: None,
                        },
                    ),
                ),
            },
            (StagingStage::ExifWarned, StagingInput::Sent(_)) => self.launch(0, cancelled),
            (StagingStage::Acquiring(k), StagingInput::Slot(ok)) => if !ok || cancelled {
                (self.at(StagingStage::Joining), StagingActionView::JoinWorkers)
            } else {
                (
                    self.at(StagingStage::Launching(k)),
                    StagingActionView::StartUnit {
                        unit: self.units[k as int],
                        seq: k as u64,
                        has_exif: self.has_exif,
                    },
                )
            },
            (StagingStage::Launching(k), StagingInput::UnitStarted) => self.launch(
                k + 1,
                cancelled,
            ),
            (StagingStage::Joining, StagingInput::Joined(m)) => {
                let joined = StagingState { worker_error: m, ..self };
                if self.has_exif {
                    (joined.at(StagingStage::Stopping), StagingActionView::ShutdownExif)
                } else {
                    joined.sweep()
                }
            },
            (StagingStage::Stopping, StagingInput::ShutDown) => self.sweep(),
            (StagingStage::EndImages, StagingInput::Removed) => (
                self.at(StagingStage::EndVideos),
                StagingActionView::RemoveDir { path: self.videos_staging() },
            ),
            (StagingStage::EndVideos, StagingInput::Removed) => match self.worker_error {
                Some(m) => (
                    self.at(StagingStage::Over),
                    StagingActionView::Fail(
                        ErrorView::Internal("staging worker terminated unexpectedly: "@ + m),
                    ),
                ),
                None => (self.at(StagingStage::Totalling), StagingActionView::Summarize),
            },
            (StagingStage::Totalling, StagingInput::Totals(c)) => {
                let summary = SyncSummary {
                    total: self.total,
                    copied: c.copied,
                    skipped: c.skipped,
                    failed: c.failed,
                    cancelled,
                };
                (
                    self.at(StagingStage::Finishing(summary)),
                    StagingActionView::Emit(EventView::ExecutionFinished { summary }),
                )
            },
            (StagingStage::Finishing(summary), StagingInput::Sent(_)) => (
                self.at(StagingStage::Over),
                StagingActionView::Complete(summary),
            ),
            (StagingStage::Over, _) => (self, StagingActionView::Fail(ErrorView::Cancelled)),
            _ => self.sweep(),
        }
    }

    /// The numbers of the stage stand for rows and units that are there.
    pub open spec fn wf(self) -> bool {
        match self.stage {
            StagingStage::Announcing(i) => i < self.rows.len(),
            StagingStage::Reporting(i) => i < self.rows.len(),
            StagingStage::Acquiring(k) => k < self.units.len(),
            StagingStage::Launching(k) => k < self.units.len(),
            _ => true,
        }
    }
}

/// A run that copies the files of a plan.
#[derive(Debug)]
pub struct StagingRun {
    cfg: EngineConfig,
    rows: Vec<PlannedFile>,
    units: Vec<CopyUnit>,
    total: u64,
    has_exif: bool,
    worker_error: Option<String>,
    stage: StagingStage,
}

impl View for StagingRun {
    type V = StagingState;

    closed spec fn view(&self) -> StagingState {
        StagingState {
            cfg: self.cfg@,
            rows: events::planned_view(self.rows@),
            units: plan::units_view(self.units@),
            total: self.total,
            has_exif: self.has_exif,
            worker_error: text::opt_text(self.worker_error),
            stage: self.stage,
        }
    }
}

/// A run that has not begun.
pub open spec fn fresh(cfg: EngineConfigView, plan: PlanView) -> StagingState {
    StagingState {
        cfg,
        rows: execute::decided_rows(plan.items),
        units: plan.units,
        total: plan.items.len() as u64,
        has_exif: false,
        worker_error: None,
        stage: StagingStage::Ready,
    }
}

impl StagingRun {
    /// A run that copies the files of a plan.
    pub fn new(cfg: EngineConfig, plan: SyncPlan) -> (r: Self)
        ensures
            r@ == fresh(cfg@, plan@),
            r@.wf(),
    {
        let rows = execute::rows_decided(&plan.items);
        let total: u64 = plan.items.len() as u64;
        StagingRun {
            cfg,
            rows,
            units: plan.units,
            total,
            has_exif: false,
            worker_error: None,
            stage: StagingStage::Ready,
        }
    }

    fn remove_images(&self) -> (r: StagingAction)
        ensures
            r@ == (StagingActionView::RemoveDir { path: self@.images_staging() }),
    {
        StagingAction::RemoveDir {
            path: path::join_path(self.cfg.images_root.as_str(), STAGING_DIR_NAME),
        }
    }

    fn remove_videos(&self) -> (r: StagingAction)
        ensures
            r@ == (StagingActionView::RemoveDir { path: self@.videos_staging() }),
    {
        StagingAction::RemoveDir {
            path: path::join_path(self.cfg.videos_root.as_str(), STAGING_DIR_NAME),
        }
    }

    fn sweep(&mut self) -> (r: StagingAction)
        ensures
            final(self)@ == old(self)@.sweep().0,
            r@ == old(self)@.sweep().1,
    {
        self.stage = StagingStage::EndImages;
        self.remove_images()
    }

    fn decided(&mut self, i: usize, cancelled: bool) -> (r: StagingAction)
        ensures
            final(self)@ == old(self)@.decided(i as int, cancelled).0,
            r@ == old(self)@.decided(i as int, cancelled).1,
            final(self)@.wf(),
    {
        if cancelled {
            return self.sweep();
        }
        if i >= self.rows.len() {
            self.stage = StagingStage::Spawning;
            return StagingAction::SpawnExif;
        }
        self.stage = StagingStage::Announcing(i);
        StagingAction::Emit(EngineEvent::FileStarted { file: self.rows[i].clone() })
    }

    fn launch(&mut self, k: usize, cancelled: bool) -> (r: StagingAction)
        ensures
            final(self)@ == old(self)@.launch(k as int, cancelled).0,
            r@ == old(self)@.launch(k as int, cancelled).1,
            final(self)@.wf(),
    {
        if cancelled || k >= self.units.len() {
            self.stage = StagingStage::Joining;
            return StagingAction::JoinWorkers;
        }
        self.stage = StagingStage::Acquiring(k);
        StagingAction::AcquireSlot
    }

    fn on_exif(&mut self, result: std::result::Result<(), String>, cancelled: bool) -> (r:
        StagingAction)
        requires
            old(self)@.stage is Spawning,
        ensures
            ({
                let e = StagingEvent::Exif(result);
                final(self)@ == old(self)@.next(e@, cancelled).0 && r@ == old(self)@.next(
                    e@,
                    cancelled,
                ).1
            }),
            final(self)@.wf(),
    {
        match result {
            Ok(_) => {
                self.has_exif = true;
                self.launch(0, cancelled)
            },
            Err(m) => {
                let mut message = text::copy_str(
                    "exiftool unavailable, dating by file mtime only: ",
                );
                message.append(m.as_str());
                self.stage = StagingStage::ExifWarned;
                StagingAction::Emit(
                    EngineEvent::Warning {
                        kind: WarningKind::ExifToolUnavailable,
                        message,
                        file: None,
                    },
                )
            },
        }
    }

    /// Takes what came of the last action and says what is to be done next.
    /// `cancelled` tells whether the run is to stop.
    pub fn step(&mut self, event: StagingEvent, cancelled: bool) -> (r: StagingAction)
        requires
            old(self)@.wf(),
        ensures
            final(self)@ == old(self)@.next(event@, cancelled).0,
            r@ == old(self)@.next(event@, cancelled).1,
            final(self)@.wf(),
    {
        let rows: usize = self.rows.len();
        let units: usize = self.units.len();
        match (self.stage, event) {
            (StagingStage::Ready, StagingEvent::Start) => {
                self.stage = StagingStage::SweepImages;
                self.remove_images()
            },
            (StagingStage::SweepImages, StagingEvent::Removed) => {
                self.stage = StagingStage::SweepVideos;
                self.remove_videos()
            },
            (StagingStage::SweepVideos, StagingEvent::Removed) => self.decided(0, cancelled),
            (StagingStage::Announcing(i), StagingEvent::Sent(ok)) => {
                if !ok {
                    return self.decided(i + 1, cancelled);
                }
                let file = self.rows[i].clone();
                let outcome = execute::outcome_of_decided(&self.rows[i]);
                self.stage = StagingStage::Reporting(i);
                StagingAction::Finish { file, outcome }
            },
            (StagingStage::Reporting(i), StagingEvent::Finished) => self.decided(i + 1, cancelled),
            (StagingStage::Spawning, StagingEvent::Exif(result)) => self.on_exif(result, cancelled),
            (StagingStage::ExifWarned, StagingEvent::Sent(_)) => self.launch(0, cancelled),
            (StagingStage::Acquiring(k), StagingEvent::Slot(ok)) => {
                if !ok || cancelled {
                    self.stage = StagingStage::Joining;
                    return StagingAction::JoinWorkers;
                }
                let unit = self.units[k].clone();
                self.stage = StagingStage::Launching(k);
                StagingAction::StartUnit { unit, seq: k as u64, has_exif: self.has_exif }
            },
            (StagingStage::Launching(k), StagingEvent::UnitStarted) => self.launch(
                k + 1,
                cancelled,
            ),
            (StagingStage::Joining, StagingEvent::Joined(m)) => {
                self.worker_error = m;
                if self.has_exif {
                    self.stage = StagingStage::Stopping;
                    return StagingAction::ShutdownExif;
                }
                self.sweep()
            },
            (StagingStage::Stopping, StagingEvent::ShutDown) => self.sweep(),
            (StagingStage::EndImages, StagingEvent::Removed) => {
                self.stage = StagingStage::EndVideos;
                self.remove_videos()
            },
            (StagingStage::EndVideos, StagingEvent::Removed) => {
                match &self.worker_error {
                    Some(m) => {
                        let mut s = text::copy_str("staging worker terminated unexpectedly: ");
                        s.append(m.as_str());
                        self.stage = StagingStage::Over;
                        StagingAction::Fail(Error::Internal(s))
                    },
                    None => {
                        self.stage = StagingStage::Totalling;
                        StagingAction::Summarize
                    },
                }
            },
            (StagingStage::Totalling, StagingEvent::Totals(c)) => {
                let summary = c.summary(self.total, cancelled);
                self.stage = StagingStage::Finishing(summary);
                StagingAction::Emit(EngineEvent::ExecutionFinished { summary })
            },
            (StagingStage::Finishing(summary), StagingEvent::Sent(_)) => {
                self.stage = StagingStage::Over;
                StagingAction::Complete(summary)
            },
            (StagingStage::Over, _) => StagingAction::Fail(Error::Cancelled),
            _ => self.sweep(),
        }
    }
}

// ---------------------------------------------------------------------------
// Laws
// ---------------------------------------------------------------------------

/// Both staging directories are swept before the first file and after the
/// last: nothing is announced or started before the first sweep of both, and a
/// run ends, well or badly, only after the last sweep of both.
pub proof fn law_staging_is_swept_before_and_after(
    s: StagingState,
    e: StagingInput,
    cancelled: bool,
)
    ensures
        s.stage is Ready ==> s.next(e, cancelled).1 == (StagingActionView::RemoveDir {
            path: s.images_staging(),
        }),
        s.next(e, cancelled).0.stage is SweepVideos ==> s.stage is SweepImages && s.next(
            e,
            cancelled,
        ).1 == (StagingActionView::RemoveDir { path: s.videos_staging() }),
        s.stage is SweepImages || s.stage is SweepVideos ==> s.next(e, cancelled).0.stage
            is SweepVideos || s.next(e, cancelled).0.stage is EndImages || (s.stage is SweepVideos
            && e is Removed),
        s.next(e, cancelled).0.stage is EndImages ==> s.next(e, cancelled).1 == (
        StagingActionView::RemoveDir { path: s.images_staging() }),
        s.next(e, cancelled).0.stage is EndVideos ==> s.stage is EndImages && s.next(
            e,
            cancelled,
        ).1 == (StagingActionView::RemoveDir { path: s.videos_staging() }),
        s.next(e, cancelled).0.stage is Totalling ==> s.stage is EndVideos,
        s.next(e, cancelled).0.stage is Finishing ==> s.stage is Totalling,
        s.next(e, cancelled).0.stage is Over ==> s.stage is EndVideos || s.stage is Finishing
            || s.stage is Over,
        s.next(e, cancelled).1 is Complete ==> s.stage is Finishing,
{
}

/// Units are handed out in order, each once, and none once the run is
/// cancelled.
pub proof fn law_units_are_handed_out_in_order(s: StagingState, e: StagingInput, cancelled: bool)
    requires
        s.wf(),
        s.units.len() <= usize::MAX,
    ensures
        s.next(e, cancelled).1 is StartUnit ==> !cancelled && s.stage is Acquiring && s.next(
            e,
            cancelled,
        ).1->unit == s.units[s.stage->Acquiring_0 as int] && s.next(e, cancelled).0.stage
            == StagingStage::Launching(s.stage->Acquiring_0),
        s.next(e, cancelled).0.stage matches StagingStage::Acquiring(k) ==> (k == 0 && (
        s.stage is Spawning || s.stage is ExifWarned)) || (k > 0 && s.stage
            == StagingStage::Launching((k - 1) as usize)),
{
}

/// The counts of a summary that a run completes with are the counters at the
/// end.
pub proof fn law_summary_is_what_was_counted(s: StagingState, c: Counters, cancelled: bool)
    requires
        s.stage is Totalling,
    ensures
        ({
            let (t, action) = s.next(StagingInput::Totals(c), cancelled);
            let (u, last) = t.next(StagingInput::Sent(true), cancelled);
            let summary = SyncSummary {
                total: s.total,
                copied: c.copied,
                skipped: c.skipped,
                failed: c.failed,
                cancelled,
            };
            &&& action == StagingActionView::Emit(EventView::ExecutionFinished { summary })
            &&& last == StagingActionView::Complete(summary)
        }),
{
}

/// A run removes nothing but the two staging directories.
pub proof fn law_run_removes_only_staging(s: StagingState, e: StagingInput, cancelled: bool)
    ensures
        s.next(e, cancelled).1 matches StagingActionView::RemoveDir { path } ==> path
            == s.images_staging() || path == s.videos_staging(),
        s.next(e, cancelled).0.images_staging() == s.images_staging(),
        s.next(e, cancelled).0.videos_staging() == s.videos_staging(),
{
}

} // verus!
