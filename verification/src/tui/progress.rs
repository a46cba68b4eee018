//! What the frontend makes of the engine's events and results.

use vstd::prelude::*;
use crate::engine::execute;
use crate::engine::{ScanResult, ScanResultView};
use crate::error::{Error, ErrorView};
use crate::events;
use crate::events::{EngineEvent, EventView, FileId, FileIdView, FileOutcome, OutcomeView, SyncSummary};
use crate::text;
use super::labels;
use super::slots;
use super::state;
use super::state::{Action, ActionView, App, AppView, Reaction, ScanView, Screen, SyncView};

verus! {

// ---------------------------------------------------------------------------
// The model
// ---------------------------------------------------------------------------

/// The file that a message is about, behind it in brackets.
pub open spec fn about(file: Option<FileIdView>) -> Seq<char> {
    match file {
        Some(f) => " ("@ + f.rel_path + ")"@,
        None => ""@,
    }
}

/// What the log says of a file that is finished.
pub open spec fn finished_line(rel_path: Seq<char>, outcome: OutcomeView) -> Seq<char> {
    match outcome {
        OutcomeView::Copied { bytes } => " OK   "@ + rel_path,
        OutcomeView::Skipped { reason } => " SKIP "@ + rel_path + " ("@ + reason + ")"@,
        OutcomeView::Failed { error } => " FAIL "@ + rel_path + " ("@ + error + ")"@,
    }
}

impl SyncView {
    /// A line is logged.
    pub open spec fn logged(self, line: Seq<char>) -> SyncView {
        SyncView { log: labels::logged(self.log, line), ..self }
    }

    /// A line is logged and kept for the summary.
    pub open spec fn noted(self, line: Seq<char>) -> SyncView {
        SyncView { diagnostics: self.diagnostics.push(line), ..self.logged(line) }
    }
}

impl AppView {
    /// The scan reports its state.
    pub open spec fn scan_says(self, status: Seq<char>) -> AppView {
        AppView { scan: ScanView { status, ..self.scan }, ..self }
    }

    /// An event of the scan.
    pub open spec fn scan_event(self, e: EventView) -> AppView {
        match e {
            EventView::ScanStarted { source, display_name } => self.scan_says(
                "scanning "@ + display_name + "…"@,
            ),
            EventView::ScanProgress { source, files_seen } => self.scan_says(
                "scanning… "@ + text::decimal(files_seen as nat) + " files"@,
            ),
            EventView::ScanComplete { source, files } => AppView {
                scan: ScanView {
                    files_total: files,
                    status: text::decimal(files as nat) + " files enumerated"@,
                    ..self.scan
                },
                ..self
            },
            EventView::ProfileDetected { profile } => AppView {
                detected_profile_name: Some(profile.display_name),
                ..self
            },
            EventView::MetadataProgress { done, total } => AppView {
                scan: ScanView { meta_done: done, meta_total: total, ..self.scan },
                ..self
            },
            EventView::PlanReady { summary } => self.scan_says(
                "plan ready: "@ + text::decimal(summary.copies as nat) + " copies, "@
                    + text::decimal(summary.skips as nat) + " skips, "@ + text::decimal(
                    summary.errors as nat,
                ) + " errors"@,
            ),
            EventView::Warning { kind, message, file } => self.told("warn: "@ + message),
            EventView::Error { kind, message, file } => self.told("error: "@ + message),
            _ => self,
        }
    }

    /// An event of the import.
    pub open spec fn sync_event(self, e: EventView) -> AppView {
        match e {
            EventView::ExecutionStarted { total_files, total_bytes, dry_run } => AppView {
                sync: SyncView {
                    progress: SyncSummary { total: total_files, ..state::no_summary() },
                    ..self.sync
                },
                ..self
            },
            EventView::FileStarted { file } => AppView {
                sync: SyncView {
                    lanes: slots::started(self.sync.lanes, file.source_rel_path, file.source_size),
                    ..self.sync
                },
                ..self
            },
            EventView::FilePhaseChanged { file, phase } => AppView {
                sync: SyncView {
                    lanes: slots::phased(self.sync.lanes, file.rel_path, phase),
                    ..self.sync
                },
                ..self
            },
            EventView::FileProgress { file, bytes_done, bytes_total } => AppView {
                sync: SyncView {
                    lanes: slots::progressed(
                        self.sync.lanes,
                        file.rel_path,
                        bytes_done,
                        bytes_total,
                    ),
                    ..self.sync
                },
                ..self
            },
            EventView::FileFinished { file, outcome } => AppView {
                sync: SyncView {
                    lanes: slots::freed(self.sync.lanes, file.source_rel_path),
                    ..self.sync.logged(finished_line(file.source_rel_path, outcome))
                },
                ..self
            },
            EventView::ExecutionProgress { summary } => AppView {
                sync: SyncView { progress: summary, ..self.sync },
                ..self
            },
            EventView::ExecutionFinished { summary } => AppView {
                sync: SyncView { progress: summary, ..self.sync },
                ..self
            },
            EventView::Warning { kind, message, file } => AppView {
                sync: self.sync.noted(" WARN  "@ + message + about(file)),
                ..self.told("warn: "@ + message)
            },
            EventView::Error { kind, message, file } => AppView {
                sync: self.sync.noted(" ERROR "@ + message + about(file)),
                ..self.told("error: "@ + message)
            },
            _ => self,
        }
    }

    /// The scan is over.
    pub open spec fn scan_over(self, end: ScanEndView) -> Reaction {
        let idle = AppView { scan: ScanView { running: false, ..self.scan }, ..self };
        match end {
            ScanEndView::Done(result) => if self.scan.cancelling {
                (idle, ActionView::StartOver)
            } else {
                (
                    AppView {
                        plan: Some(result.plan),
                        detected_profile_name: Some(result.profile.display_name),
                        review_selected: Some(0),
                        review_action: 0,
                        screen: Screen::Review,
                        ..idle
                    },
                    ActionView::Stay,
                )
            },
            ScanEndView::Failed(e) => if self.scan.cancelling {
                (idle, ActionView::StartOver)
            } else {
                (
                    AppView { scan: ScanView { error: Some(e.message()), ..idle.scan }, ..idle },
                    ActionView::Stay,
                )
            },
            ScanEndView::Panicked(m) => (
                AppView {
                    scan: ScanView { error: Some("scan task panicked: "@ + m), ..idle.scan },
                    ..idle
                },
                ActionView::Stay,
            ),
        }
    }

    /// The import is over.
    pub open spec fn sync_over(self, end: SyncEndView) -> AppView {
        let idle = SyncView { running: false, cancelling: false, ..self.sync };
        AppView {
            sync: match end {
                SyncEndView::Done(summary) => SyncView {
                    progress: summary,
                    summary: Some(summary),
                    ..idle
                },
                SyncEndView::Failed(e) => SyncView {
                    error: Some("sync failed: "@ + e.message()),
                    ..idle
                },
                SyncEndView::Panicked(m) => SyncView {
                    error: Some("sync task panicked: "@ + m),
                    ..idle.noted(" ERROR "@ + ("sync task panicked: "@ + m))
                },
            },
            summary_action: 1,
            screen: Screen::Summary,
            ..self
        }
    }
}

/// How a scan ended.
#[derive(Debug)]
pub enum ScanEnd {
    Done(ScanResult),
    Failed(Error),
    Panicked(String),
}

/// The contents of a [`ScanEnd`].
pub enum ScanEndView {
    Done(ScanResultView),
    Failed(ErrorView),
    Panicked(Seq<char>),
}

impl View for ScanEnd {
    type V = ScanEndView;

    open spec fn view(&self) -> ScanEndView {
        match self {
            ScanEnd::Done(result) => ScanEndView::Done(result@),
            ScanEnd::Failed(e) => ScanEndView::Failed(e@),
            ScanEnd::Panicked(m) => ScanEndView::Panicked(m@),
        }
    }
}

/// How an import ended.
#[derive(Debug)]
pub enum SyncEnd {
    Done(SyncSummary),
    Failed(Error),
    Panicked(String),
}

/// The contents of a [`SyncEnd`].
pub enum SyncEndView {
    Done(SyncSummary),
    Failed(ErrorView),
    Panicked(Seq<char>),
}

impl View for SyncEnd {
    type V = SyncEndView;

    open spec fn view(&self) -> SyncEndView {
        match self {
            SyncEnd::Done(summary) => SyncEndView::Done(*summary),
            SyncEnd::Failed(e) => SyncEndView::Failed(e@),
            SyncEnd::Panicked(m) => SyncEndView::Panicked(m@),
        }
    }
}

// ---------------------------------------------------------------------------
// Events
// ---------------------------------------------------------------------------

fn about_text(file: &Option<FileId>) -> (r: String)
    ensures
        r@ == about(events::opt_file(*file)),
{
    match file {
        Some(f) => text::with(text::with(text::copy_str(" ("), f.rel_path.as_str()), ")"),
        None => text::copy_str(""),
    }
}

fn finished_text(rel_path: &str, outcome: &FileOutcome) -> (r: String)
    ensures
        r@ == finished_line(rel_path@, outcome@),
{
    match outcome {
        FileOutcome::Copied { bytes } => text::with(text::copy_str(" OK   "), rel_path),
        FileOutcome::Skipped { reason } => text::with(
            text::with(
                text::with(text::with(text::copy_str(" SKIP "), rel_path), " ("),
                reason.as_str(),
            ),
            ")",
        ),
        FileOutcome::Failed { error } => text::with(
            text::with(
                text::with(text::with(text::copy_str(" FAIL "), rel_path), " ("),
                error.as_str(),
            ),
            ")",
        ),
    }
}

impl App {
    fn note(&mut self, line: String)
        ensures
            final(self)@ == (AppView { sync: old(self)@.sync.noted(line@), ..old(self)@ }),
    {
        let ghost before = text::texts(self.sync.diagnostics@);
        let ghost new = line@;
        labels::push_log(&mut self.sync.log, text::copy_str(line.as_str()));
        self.sync.diagnostics.push(line);
        proof {
            assert(text::texts(self.sync.diagnostics@) =~= before.push(new));
        }
    }

    /// Acts on an event of the scan.
    pub fn on_scan_event(&mut self, event: &EngineEvent)
        ensures
            final(self)@ == old(self)@.scan_event(event@),
            old(self)@.wf() ==> final(self)@.wf(),
    {
        match event {
            EngineEvent::ScanStarted { source, display_name } => {
                self.scan.status = text::with(
                    text::with(text::copy_str("scanning "), display_name.as_str()),
                    "…",
                );
            },
            EngineEvent::ScanProgress { source, files_seen } => {
                self.scan.status = text::with(
                    text::with(text::copy_str("scanning… "), &text::decimal_text(*files_seen)),
                    " files",
                );
            },
            EngineEvent::ScanComplete { source, files } => {
                self.scan.files_total = *files;
                self.scan.status = text::with(text::decimal_text(*files), " files enumerated");
            },
            EngineEvent::ProfileDetected { profile } => {
                self.detected_profile_name = Some(text::copy_str(profile.display_name.as_str()));
            },
            EngineEvent::MetadataProgress { done, total } => {
                self.scan.meta_done = *done;
                self.scan.meta_total = *total;
            },
            EngineEvent::PlanReady { summary } => {
                let copies = text::with(
                    text::with(text::copy_str("plan ready: "), &text::decimal_text(summary.copies)),
                    " copies, ",
                );
                let skips = text::with(
                    text::with(copies, &text::decimal_text(summary.skips)),
                    " skips, ",
                );
                self.scan.status = text::with(
                    text::with(skips, &text::decimal_text(summary.errors)),
                    " errors",
                );
            },
            EngineEvent::Warning { kind, message, file } => {
                self.status = Some(text::with(text::copy_str("warn: "), message.as_str()));
            },
            EngineEvent::Error { kind, message, file } => {
                self.status = Some(text::with(text::copy_str("error: "), message.as_str()));
            },
            _ => {},
        }
    }

    /// Acts on an event of the import.
    pub fn on_sync_event(&mut self, event: &EngineEvent)
        ensures
            final(self)@ == old(self)@.sync_event(event@),
            old(self)@.wf() ==> final(self)@.wf(),
    {
        match event {
            EngineEvent::ExecutionStarted { total_files, total_bytes, dry_run } => {
                let mut progress = SyncSummary::default();
                progress.total = *total_files;
                self.sync.progress = progress;
            },
            EngineEvent::FileStarted { file } => {
                self.sync.lanes.start(
                    text::copy_str(file.source_rel_path.as_str()),
                    file.source_size,
                );
            },
            EngineEvent::FilePhaseChanged { file, phase } => {
                self.sync.lanes.update_phase(file.rel_path.as_str(), *phase);
            },
            EngineEvent::FileProgress { file, bytes_done, bytes_total } => {
                self.sync.lanes.update(file.rel_path.as_str(), *bytes_done, *bytes_total);
            },
            EngineEvent::FileFinished { file, outcome } => {
                self.sync.lanes.free(file.source_rel_path.as_str());
                let line = finished_text(file.source_rel_path.as_str(), outcome);
                labels::push_log(&mut self.sync.log, line);
            },
            EngineEvent::ExecutionProgress { summary } => {
                self.sync.progress = *summary;
            },
            EngineEvent::ExecutionFinished { summary } => {
                self.sync.progress = *summary;
            },
            EngineEvent::Warning { kind, message, file } => {
                let line = text::with(
                    text::with(text::copy_str(" WARN  "), message.as_str()),
                    &about_text(file),
                );
                self.note(line);
                self.status = Some(text::with(text::copy_str("warn: "), message.as_str()));
            },
            EngineEvent::Error { kind, message, file } => {
                let line = text::with(
                    text::with(text::copy_str(" ERROR "), message.as_str()),
                    &about_text(file),
                );
                self.note(line);
                self.status = Some(text::with(text::copy_str("error: "), message.as_str()));
            },
            _ => {},
        }
    }

    // -----------------------------------------------------------------------
    // Results
    // -----------------------------------------------------------------------

    /// Goes on to the preview, where the scan came to a plan. A scan that was cancelled
    /// leads back to the beginning.
    pub fn scan_finished(&mut self, end: ScanEnd) -> (r: Action)
        requires
            end matches ScanEnd::Done(result) ==> execute::copy_bytes(result@.plan.items)
                <= u64::MAX,
        ensures
            (final(self)@, r@) == old(self)@.scan_over(end@),
            old(self)@.wf() ==> final(self)@.wf(),
    {
        self.scan.running = false;
        match end {
            ScanEnd::Done(result) => {
                if self.scan.cancelling {
                    return Action::StartOver;
                }
                let ScanResult { plan, profile } = result;
                self.plan = Some(plan);
                self.detected_profile_name = Some(profile.display_name);
                self.review_selected = Some(0);
                self.review_action = 0;
                self.screen = Screen::Review;
            },
            ScanEnd::Failed(e) => {
                if self.scan.cancelling {
                    return Action::StartOver;
                }
                self.scan.error = Some(e.to_string());
            },
            ScanEnd::Panicked(m) => {
                self.scan.error = Some(
                    text::with(text::copy_str("scan task panicked: "), m.as_str()),
                );
            },
        }
        Action::Stay
    }

    /// Goes on to the summary.
    pub fn sync_finished(&mut self, end: SyncEnd)
        ensures
            final(self)@ == old(self)@.sync_over(end@),
            old(self)@.wf() ==> final(self)@.wf(),
    {
        self.sync.running = false;
        self.sync.cancelling = false;
        match end {
            SyncEnd::Done(summary) => {
                self.sync.progress = summary;
                self.sync.summary = Some(summary);
            },
            SyncEnd::Failed(e) => {
                self.sync.error = Some(text::with(text::copy_str("sync failed: "), &e.to_string()));
            },
            SyncEnd::Panicked(m) => {
                let message = text::with(text::copy_str("sync task panicked: "), m.as_str());
                self.note(text::with(text::copy_str(" ERROR "), message.as_str()));
                self.sync.error = Some(message);
            },
        }
        self.summary_action = 1;
        self.screen = Screen::Summary;
    }
}

} // verus!
