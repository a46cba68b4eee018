//! The engine: scan, plan and execute. Each operation is a state machine that
//! says what is to be done next and takes what came of it.

use vstd::prelude::*;
use crate::config::{EngineConfig, EngineConfigView};
use crate::error::{Error, ErrorView};
use crate::events::{
    DetectedProfile, DetectedProfileView, EngineEvent, EventView, FileOutcome, OperationErrorKind,
    OutcomeView, SyncSummary,
};
use crate::plan::{PlanView, SyncPlan};
use crate::profiles::{ProfileRegistry, ProfileView};

pub mod dry;
pub mod dry_totals;
pub mod execute;
pub mod locking;
pub mod reimport;
pub mod run_steps;
pub mod scan;
pub mod staging;
pub mod totals;
pub mod twice;
pub mod unit;
pub mod unit_laws;
pub mod unit_steps;

verus! {

/// How a plan is executed.
#[derive(Debug, Clone, Copy, PartialEq, Eq, Structural)]
pub struct ExecuteOptions {
    /// Show what would happen without writing anything.
    pub dry_run: bool,
}

impl Default for ExecuteOptions {
    fn default() -> (r: Self)
        ensures
            r == (ExecuteOptions { dry_run: false }),
    {
        ExecuteOptions { dry_run: false }
    }
}

/// What a scan came to.
#[derive(Debug)]
pub struct ScanResult {
    pub plan: SyncPlan,
    pub profile: DetectedProfile,
}

/// The contents of a [`ScanResult`].
pub struct ScanResultView {
    pub plan: PlanView,
    pub profile: DetectedProfileView,
}

impl View for ScanResult {
    type V = ScanResultView;

    open spec fn view(&self) -> ScanResultView {
        ScanResultView { plan: self.plan@, profile: self.profile@ }
    }
}

impl Clone for ScanResult {
    fn clone(&self) -> (r: Self)
        ensures
            r@ == self@,
    {
        ScanResult { plan: self.plan.clone(), profile: self.profile.clone() }
    }
}

/// A configuration and the known cameras.
#[derive(Debug)]
pub struct Engine {
    config: EngineConfig,
    registry: ProfileRegistry,
}

/// The contents of an [`Engine`].
pub struct EngineView {
    pub config: EngineConfigView,
    pub registry: Seq<ProfileView>,
}

impl View for Engine {
    type V = EngineView;

    closed spec fn view(&self) -> EngineView {
        EngineView { config: self.config@, registry: self.registry@ }
    }
}

impl Engine {
    /// An engine for a configuration.
    pub fn new(config: EngineConfig, registry: ProfileRegistry) -> (r: Self)
        ensures
            r@ == (EngineView { config: config@, registry: registry@ }),
    {
        Engine { config, registry }
    }

    /// The configuration.
    pub fn config(&self) -> (r: &EngineConfig)
        ensures
            r@ == self@.config,
    {
        &self.config
    }

    /// The known cameras.
    pub fn registry(&self) -> (r: &ProfileRegistry)
        ensures
            r@ == self@.registry,
    {
        &self.registry
    }
}

/// What kind of failure an error is.
pub open spec fn error_kind(e: ErrorView) -> OperationErrorKind {
    match e {
        ErrorView::Cancelled => OperationErrorKind::Cancelled,
        ErrorView::Config(_) => OperationErrorKind::Configuration,
        ErrorView::Template { template: _, message: _ } => OperationErrorKind::Configuration,
        ErrorView::Profile(_) => OperationErrorKind::Configuration,
        ErrorView::TomlDe(_) => OperationErrorKind::Configuration,
        ErrorView::TomlSer(_) => OperationErrorKind::Configuration,
        ErrorView::DestRootMissing { path: _, kind: _ } => OperationErrorKind::Destination,
        ErrorView::DestRootNotDir { path: _, kind: _ } => OperationErrorKind::Destination,
        ErrorView::DestinationLocked { path: _ } => OperationErrorKind::Destination,
        ErrorView::Source(_) => OperationErrorKind::Source,
        ErrorView::ExiftoolMissing => OperationErrorKind::ExifTool,
        ErrorView::Exiftool(_) => OperationErrorKind::ExifTool,
        ErrorView::Metadata { path: _, message: _ } => OperationErrorKind::ExifTool,
        ErrorView::Io { path: _, source: _ } => OperationErrorKind::Io,
        ErrorView::IoBare(_) => OperationErrorKind::Io,
        ErrorView::Json(_) => OperationErrorKind::Internal,
        ErrorView::Internal(_) => OperationErrorKind::Internal,
    }
}

/// What kind of failure an error is.
pub fn operation_error_kind(error: &Error) -> (r: OperationErrorKind)
    ensures
        r == error_kind(error@),
{
    match error {
        Error::Cancelled => OperationErrorKind::Cancelled,
        Error::Config(_)
        | Error::Template { .. }
        | Error::Profile(_)
        | Error::TomlDe(_)
        | Error::TomlSer(_) => OperationErrorKind::Configuration,
        Error::DestRootMissing { .. }
        | Error::DestRootNotDir { .. }
        | Error::DestinationLocked { .. } => OperationErrorKind::Destination,
        Error::Source(_) => OperationErrorKind::Source,
        Error::ExiftoolMissing | Error::Exiftool(_) | Error::Metadata { .. } => {
            OperationErrorKind::ExifTool
        },
        Error::Io { .. } | Error::IoBare(_) => OperationErrorKind::Io,
        Error::Json(_) | Error::Internal(_) => OperationErrorKind::Internal,
    }
}

/// The last event of an operation that failed.
pub fn error_event(error: &Error) -> (r: EngineEvent)
    ensures
        r@ == (EventView::Error {
            kind: error_kind(error@),
            message: error@.message(),
            file: None,
        }),
{
    EngineEvent::Error {
        kind: operation_error_kind(error),
        message: error.to_string(),
        file: None,
    }
}

// ---------------------------------------------------------------------------
// Outcomes
// ---------------------------------------------------------------------------

/// How many files came to which outcome.
#[derive(Debug, Clone, Copy, PartialEq, Eq, Structural)]
pub struct Counters {
    pub copied: u64,
    pub skipped: u64,
    pub failed: u64,
}

impl Default for Counters {
    fn default() -> (r: Self)
        ensures
            r == (Counters { copied: 0, skipped: 0, failed: 0 }),
    {
        Counters { copied: 0, skipped: 0, failed: 0 }
    }
}

/// One more, round to zero after the last number.
pub open spec fn one_more(n: u64) -> u64 {
    if n == u64::MAX {
        0
    } else {
        (n + 1) as u64
    }
}

impl Counters {
    /// The counters after one more outcome.
    pub open spec fn with(self, outcome: OutcomeView) -> Counters {
        match outcome {
            OutcomeView::Copied { bytes: _ } => Counters {
                copied: one_more(self.copied),
                ..self
            },
            OutcomeView::Skipped { reason: _ } => Counters {
                skipped: one_more(self.skipped),
                ..self
            },
            OutcomeView::Failed { error: _ } => Counters { failed: one_more(self.failed), ..self },
        }
    }

    /// Counts one outcome.
    pub fn record(&mut self, outcome: &FileOutcome)
        ensures
            *final(self) == old(self).with(outcome@),
    {
        match outcome {
            FileOutcome::Copied { .. } => {
                self.copied = self.copied.wrapping_add(1);
            },
            FileOutcome::Skipped { .. } => {
                self.skipped = self.skipped.wrapping_add(1);
            },
            FileOutcome::Failed { .. } => {
                self.failed = self.failed.wrapping_add(1);
            },
        }
    }

    /// What a run came to so far.
    pub fn summary(&self, total: u64, cancelled: bool) -> (r: SyncSummary)
        ensures
            r == (SyncSummary {
                total,
                copied: self.copied,
                skipped: self.skipped,
                failed: self.failed,
                cancelled,
            }),
    {
        SyncSummary {
            total,
            copied: self.copied,
            skipped: self.skipped,
            failed: self.failed,
            cancelled,
        }
    }

    /// What follows the news of a file's outcome: the new totals, unless
    /// nobody listens any more.
    pub fn progress_after(&self, sent: bool, total: u64, cancelled: bool) -> (r: Option<
        EngineEvent,
    >)
        ensures
            match r {
                Some(e) => sent && e@ == (EventView::ExecutionProgress {
                    summary: SyncSummary {
                        total,
                        copied: self.copied,
                        skipped: self.skipped,
                        failed: self.failed,
                        cancelled,
                    },
                }),
                None => !sent,
            },
    {
        if sent {
            Some(EngineEvent::ExecutionProgress { summary: self.summary(total, cancelled) })
        } else {
            None
        }
    }
}

/// Every outcome is counted once, under its own heading.
pub proof fn law_outcomes_are_counted_once(c: Counters, outcome: OutcomeView)
    requires
        c.copied + c.skipped + c.failed < u64::MAX,
    ensures
        c.with(outcome).copied + c.with(outcome).skipped + c.with(outcome).failed == c.copied
            + c.skipped + c.failed + 1,
        c.with(outcome).copied == c.copied + if outcome is Copied {
            1int
        } else {
            0int
        },
        c.with(outcome).skipped == c.skipped + if outcome is Skipped {
            1int
        } else {
            0int
        },
        c.with(outcome).failed == c.failed + if outcome is Failed {
            1int
        } else {
            0int
        },
{
}

} // verus!
