//! What the command line prints.

use vstd::prelude::*;
use crate::config::{AppConfig, AppConfigView, Entry, FiltersConfig, PerformanceConfig, RawMode, VerifyConfig};
use crate::error::{Error, ErrorView};
use crate::events;
use crate::events::{
    DetectedProfileView, EngineEvent, EventView, FileId, FileIdView, FileOutcome, FilePhase,
    OperationErrorKind, OutcomeView, PlanSummary, PlannedAction, PlannedFileView, SyncSummary,
    WarningKind,
};
use crate::mount;
use crate::mount::{DetectedMount, MountRank, MountView};
use crate::plan;
use crate::plan::{PlanView, SyncPlan};
use crate::profiles;
use crate::profiles::{CameraProfile, ProfileRegistry, ProfileView};
use crate::text;

verus! {

// ---------------------------------------------------------------------------
// Options
// ---------------------------------------------------------------------------

/// What the command line sets in place of the configuration.
#[derive(Debug, Clone, Copy, PartialEq, Eq, Structural)]
pub struct Overrides {
    pub raw_mode: Option<RawMode>,
    pub no_videos: bool,
    pub no_sidecars: bool,
    pub copy_workers: Option<usize>,
    pub verify: bool,
}

/// The configuration with what the command line sets.
pub open spec fn overridden(cfg: AppConfigView, o: Overrides) -> AppConfigView {
    AppConfigView {
        filters: FiltersConfig {
            raw_mode: match o.raw_mode {
                Some(m) => m,
                None => cfg.filters.raw_mode,
            },
            include_videos: cfg.filters.include_videos && !o.no_videos,
            include_sidecars: cfg.filters.include_sidecars && !o.no_sidecars,
        },
        performance: PerformanceConfig {
            copy_workers: match o.copy_workers {
                Some(n) => n,
                None => cfg.performance.copy_workers,
            },
            ..cfg.performance
        },
        verify: VerifyConfig { enabled: cfg.verify.enabled || o.verify, ..cfg.verify },
        ..cfg
    }
}

/// The configuration with what the command line sets.
pub fn apply_overrides(cfg: AppConfig, opts: &Overrides) -> (r: AppConfig)
    ensures
        r@ == overridden(cfg@, *opts),
{
    let mut r = cfg;
    if let Some(m) = opts.raw_mode {
        r.filters.raw_mode = m;
    }
    if opts.no_videos {
        r.filters.include_videos = false;
    }
    if opts.no_sidecars {
        r.filters.include_sidecars = false;
    }
    if let Some(n) = opts.copy_workers {
        r.performance.copy_workers = n;
    }
    if opts.verify {
        r.verify.enabled = true;
    }
    r
}

/// Options only ever narrow what is imported and only ever add verification; the
/// catalogues are not touched.
pub proof fn law_overrides_only_narrow(cfg: AppConfigView, o: Overrides)
    ensures
        overridden(cfg, o).catalogues == cfg.catalogues,
        overridden(cfg, o).filters.include_videos ==> cfg.filters.include_videos,
        overridden(cfg, o).filters.include_sidecars ==> cfg.filters.include_sidecars,
        cfg.verify.enabled ==> overridden(cfg, o).verify.enabled,
        overridden(overridden(cfg, o), o) == overridden(cfg, o),
{
}

/// How to get ExifTool, behind the reason why it cannot be used.
pub open spec fn exiftool_advice(e: ErrorView) -> Seq<char> {
    e.message()
        + "\n\nInstall ExifTool:\n  Linux:   sudo apt install libimage-exiftool-perl\n  macOS:   brew install exiftool\n  Windows: winget install OliverBetz.ExifTool"@
}

/// How to get ExifTool, behind the reason why it cannot be used.
pub fn exiftool_hint(e: &Error) -> (r: String)
    ensures
        r@ == exiftool_advice(e@),
{
    text::with(
        e.to_string(),
        "\n\nInstall ExifTool:\n  Linux:   sudo apt install libimage-exiftool-perl\n  macOS:   brew install exiftool\n  Windows: winget install OliverBetz.ExifTool",
    )
}

// ---------------------------------------------------------------------------
// Events
// ---------------------------------------------------------------------------

/// The name of a phase.
pub open spec fn phase_name(p: FilePhase) -> Seq<char> {
    match p {
        FilePhase::Copying => "Copying"@,
        FilePhase::Verifying => "Verifying"@,
        FilePhase::ReadingMetadata => "ReadingMetadata"@,
        FilePhase::ResolvingDestination => "ResolvingDestination"@,
        FilePhase::Finalizing => "Finalizing"@,
    }
}

/// The name of a kind of warning.
pub open spec fn warning_name(k: WarningKind) -> Seq<char> {
    match k {
        WarningKind::ExifToolUnavailable => "ExifToolUnavailable"@,
        WarningKind::MetadataFallback => "MetadataFallback"@,
        WarningKind::Template => "Template"@,
    }
}

/// The name of a kind of error.
pub open spec fn error_name(k: OperationErrorKind) -> Seq<char> {
    match k {
        OperationErrorKind::Cancelled => "Cancelled"@,
        OperationErrorKind::Configuration => "Configuration"@,
        OperationErrorKind::Destination => "Destination"@,
        OperationErrorKind::Source => "Source"@,
        OperationErrorKind::ExifTool => "ExifTool"@,
        OperationErrorKind::Io => "Io"@,
        OperationErrorKind::Internal => "Internal"@,
    }
}

/// The file that a message is about, in brackets.
pub open spec fn in_brackets(file: Option<FileIdView>) -> Seq<char> {
    match file {
        Some(f) => " ("@ + f.rel_path + ")"@,
        None => ""@,
    }
}

/// What is printed of a file that is finished.
pub open spec fn finished_line(
    rel_path: Seq<char>,
    dest: Option<Seq<char>>,
    outcome: OutcomeView,
) -> Seq<char> {
    match outcome {
        OutcomeView::Copied { bytes } => "  copied "@ + rel_path + " ("@ + text::decimal(bytes as nat)
            + " bytes) -> "@ + match dest {
            Some(d) => d,
            None => ""@,
        },
        OutcomeView::Skipped { reason } => "  skip "@ + rel_path + " ("@ + reason + ")"@,
        OutcomeView::Failed { error } => "  FAIL "@ + rel_path + " ("@ + error + ")"@,
    }
}

/// What is printed of the state of an import.
pub open spec fn progress_line(s: SyncSummary) -> Seq<char> {
    "  progress: "@ + text::decimal((s.copied + s.skipped + s.failed) as nat) + "/"@ + text::decimal(
        s.total as nat,
    ) + " (copied="@ + text::decimal(s.copied as nat) + " skipped="@ + text::decimal(
        s.skipped as nat,
    ) + " failed="@ + text::decimal(s.failed as nat) + ")"@
}

/// What is printed at the end of an import.
pub open spec fn summary_line(s: SyncSummary) -> Seq<char> {
    "\nsummary: copied="@ + text::decimal(s.copied as nat) + " skipped="@ + text::decimal(
        s.skipped as nat,
    ) + " failed="@ + text::decimal(s.failed as nat) + if s.cancelled {
        " cancelled"@
    } else {
        ""@
    }
}

/// What is printed of an event. Scanned files and metadata are told every 200, and metadata
/// when it is complete.
pub open spec fn told(e: EventView) -> Option<Seq<char>> {
    match e {
        EventView::ScanStarted { source, display_name } => Some("scanning: "@ + display_name),
        EventView::ScanProgress { source, files_seen } => if files_seen % 200 == 0 {
            Some("  scanned: "@ + text::decimal(files_seen as nat) + " files"@)
        } else {
            None
        },
        EventView::ScanComplete { source, files } => Some(
            "  "@ + text::decimal(files as nat) + " files enumerated"@,
        ),
        EventView::ProfileDetected { profile } => Some(
            "  profile: "@ + profile.display_name + " ("@ + profile.id + ")"@,
        ),
        EventView::MetadataProgress { done, total } => if done == total || done % 200 == 0 {
            Some("  metadata: "@ + text::decimal(done as nat) + "/"@ + text::decimal(total as nat))
        } else {
            None
        },
        EventView::PlanReady { summary } => Some(
            "  planned: "@ + text::decimal(summary.copies as nat) + " copies, "@ + text::decimal(
                summary.skips as nat,
            ) + " skips, "@ + text::decimal(summary.errors as nat) + " errors"@,
        ),
        EventView::ExecutionStarted { total_files, total_bytes, dry_run } => Some(
            "  "@ + (if dry_run {
                "dry-running"@
            } else {
                "executing"@
            }) + " "@ + text::decimal(total_files as nat) + " files ("@ + text::decimal(
                total_bytes as nat,
            ) + " bytes)"@,
        ),
        EventView::FileStarted { file } => Some("  starting "@ + file.source_rel_path),
        EventView::FilePhaseChanged { file, phase } => Some(
            "  "@ + file.rel_path + ": "@ + phase_name(phase),
        ),
        EventView::FileProgress { file, bytes_done, bytes_total } => Some(
            "  copying "@ + file.rel_path + ": "@ + text::decimal(bytes_done as nat) + "/"@
                + text::decimal(bytes_total as nat),
        ),
        EventView::FileFinished { file, outcome } => Some(
            finished_line(file.source_rel_path, file.dest_path, outcome),
        ),
        EventView::ExecutionProgress { summary } => Some(progress_line(summary)),
        EventView::ExecutionFinished { summary } => Some(summary_line(summary)),
        EventView::Warning { kind, message, file } => Some(
            "warn ["@ + warning_name(kind) + "]"@ + in_brackets(file) + ": "@ + message,
        ),
        EventView::Error { kind, message, file } => Some(
            "error ["@ + error_name(kind) + "]"@ + in_brackets(file) + ": "@ + message,
        ),
    }
}

fn phase_text(p: FilePhase) -> (r: &'static str)
    ensures
        r@ == phase_name(p),
{
    match p {
        FilePhase::Copying => "Copying",
        FilePhase::Verifying => "Verifying",
        FilePhase::ReadingMetadata => "ReadingMetadata",
        FilePhase::ResolvingDestination => "ResolvingDestination",
        FilePhase::Finalizing => "Finalizing",
    }
}

fn warning_text(k: WarningKind) -> (r: &'static str)
    ensures
        r@ == warning_name(k),
{
    match k {
        WarningKind::ExifToolUnavailable => "ExifToolUnavailable",
        WarningKind::MetadataFallback => "MetadataFallback",
        WarningKind::Template => "Template",
    }
}

fn error_text(k: OperationErrorKind) -> (r: &'static str)
    ensures
        r@ == error_name(k),
{
    match k {
        OperationErrorKind::Cancelled => "Cancelled",
        OperationErrorKind::Configuration => "Configuration",
        OperationErrorKind::Destination => "Destination",
        OperationErrorKind::Source => "Source",
        OperationErrorKind::ExifTool => "ExifTool",
        OperationErrorKind::Io => "Io",
        OperationErrorKind::Internal => "Internal",
    }
}

fn bracketed(file: &Option<FileId>) -> (r: String)
    ensures
        r@ == in_brackets(events::opt_file(*file)),
{
    match file {
        Some(f) => text::with(text::with(text::copy_str(" ("), f.rel_path.as_str()), ")"),
        None => text::copy_str(""),
    }
}

fn finished_text(rel_path: &str, dest: &Option<String>, outcome: &FileOutcome) -> (r: String)
    ensures
        r@ == finished_line(rel_path@, text::opt_text(*dest), outcome@),
{
    match outcome {
        FileOutcome::Copied { bytes } => {
            let named = text::with(text::with(text::copy_str("  copied "), rel_path), " (");
            let sized = text::with(text::with(named, &text::decimal_text(*bytes)), " bytes) -> ");
            match dest {
                Some(d) => text::with(sized, d.as_str()),
                None => text::with(sized, ""),
            }
        },
        FileOutcome::Skipped { reason } => {
            let named = text::with(text::with(text::copy_str("  skip "), rel_path), " (");
            text::with(text::with(named, reason.as_str()), ")")
        },
        FileOutcome::Failed { error } => {
            let named = text::with(text::with(text::copy_str("  FAIL "), rel_path), " (");
            text::with(text::with(named, error.as_str()), ")")
        },
    }
}

fn progress_text(s: &SyncSummary) -> (r: String)
    requires
        s.copied + s.skipped + s.failed <= u64::MAX,
    ensures
        r@ == progress_line(*s),
{
    let done = text::with(
        text::with(text::copy_str("  progress: "), &text::decimal_text(s.completed())),
        "/",
    );
    let total = text::with(text::with(done, &text::decimal_text(s.total)), " (copied=");
    let copied = text::with(text::with(total, &text::decimal_text(s.copied)), " skipped=");
    let skipped = text::with(text::with(copied, &text::decimal_text(s.skipped)), " failed=");
    text::with(text::with(skipped, &text::decimal_text(s.failed)), ")")
}

fn summary_text(s: &SyncSummary) -> (r: String)
    ensures
        r@ == summary_line(*s),
{
    let copied = text::with(
        text::with(text::copy_str("\nsummary: copied="), &text::decimal_text(s.copied)),
        " skipped=",
    );
    let skipped = text::with(text::with(copied, &text::decimal_text(s.skipped)), " failed=");
    let failed = text::with(skipped, &text::decimal_text(s.failed));
    if s.cancelled {
        text::with(failed, " cancelled")
    } else {
        text::with(failed, "")
    }
}

fn scan_text(event: &EngineEvent) -> (r: Option<String>)
    requires
        event is ScanStarted || event is ScanProgress || event is ScanComplete
            || event is ProfileDetected || event is MetadataProgress || event is PlanReady,
    ensures
        text::opt_text(r) == told(event@),
{
    match event {
        EngineEvent::ScanStarted { source, display_name } => Some(
            text::with(text::copy_str("scanning: "), display_name.as_str()),
        ),
        EngineEvent::ScanProgress { source, files_seen } => if *files_seen % 200 == 0 {
            Some(
                text::with(
                    text::with(text::copy_str("  scanned: "), &text::decimal_text(*files_seen)),
                    " files",
                ),
            )
        } else {
            None
        },
        EngineEvent::ScanComplete { source, files } => Some(
            text::with(
                text::with(text::copy_str("  "), &text::decimal_text(*files)),
                " files enumerated",
            ),
        ),
        EngineEvent::ProfileDetected { profile } => Some(
            text::with(
                text::with(
                    text::with(
                        text::with(text::copy_str("  profile: "), profile.display_name.as_str()),
                        " (",
                    ),
                    profile.id.as_str(),
                ),
                ")",
            ),
        ),
        EngineEvent::MetadataProgress { done, total } => if *done == *total || *done % 200 == 0 {
            Some(
                text::with(
                    text::with(
                        text::with(text::copy_str("  metadata: "), &text::decimal_text(*done)),
                        "/",
                    ),
                    &text::decimal_text(*total),
                ),
            )
        } else {
            None
        },
        EngineEvent::PlanReady { summary } => {
            let copies = text::with(
                text::with(text::copy_str("  planned: "), &text::decimal_text(summary.copies)),
                " copies, ",
            );
            let skips = text::with(
                text::with(copies, &text::decimal_text(summary.skips)),
                " skips, ",
            );
            Some(text::with(text::with(skips, &text::decimal_text(summary.errors)), " errors"))
        },
        _ => None,
    }
}

/// What is printed of an event, where anything is.
pub fn event_line(event: &EngineEvent) -> (r: Option<String>)
    requires
        event@ matches EventView::ExecutionProgress { summary } ==> summary.copied + summary.skipped
            + summary.failed <= u64::MAX,
    ensures
        text::opt_text(r) == told(event@),
{
    match event {
        EngineEvent::ExecutionStarted { total_files, total_bytes, dry_run } => {
            let verb = if *dry_run {
                "dry-running"
            } else {
                "executing"
            };
            let named = text::with(text::with(text::copy_str("  "), verb), " ");
            let files = text::with(text::with(named, &text::decimal_text(*total_files)), " files (");
            Some(text::with(text::with(files, &text::decimal_text(*total_bytes)), " bytes)"))
        },
        EngineEvent::FileStarted { file } => Some(
            text::with(text::copy_str("  starting "), file.source_rel_path.as_str()),
        ),
        EngineEvent::FilePhaseChanged { file, phase } => Some(
            text::with(
                text::with(text::with(text::copy_str("  "), file.rel_path.as_str()), ": "),
                phase_text(*phase),
            ),
        ),
        EngineEvent::FileProgress { file, bytes_done, bytes_total } => {
            let named = text::with(
                text::with(text::copy_str("  copying "), file.rel_path.as_str()),
                ": ",
            );
            Some(
                text::with(
                    text::with(text::with(named, &text::decimal_text(*bytes_done)), "/"),
                    &text::decimal_text(*bytes_total),
                ),
            )
        },
        EngineEvent::FileFinished { file, outcome } => Some(
            finished_text(file.source_rel_path.as_str(), &file.dest_path, outcome),
        ),
        EngineEvent::ExecutionProgress { summary } => Some(progress_text(summary)),
        EngineEvent::ExecutionFinished { summary } => Some(summary_text(summary)),
        EngineEvent::Warning { kind, message, file } => {
            let kind = text::with(text::with(text::copy_str("warn ["), warning_text(*kind)), "]");
            let named = text::with(text::with(kind, &bracketed(file)), ": ");
            Some(text::with(named, message.as_str()))
        },
        EngineEvent::Error { kind, message, file } => {
            let kind = text::with(text::with(text::copy_str("error ["), error_text(*kind)), "]");
            let named = text::with(text::with(kind, &bracketed(file)), ": ");
            Some(text::with(named, message.as_str()))
        },
        _ => scan_text(event),
    }
}

/// Warnings, errors and what becomes of each file are always printed.
pub proof fn law_nothing_important_is_silent(e: EventView)
    ensures
        e is Warning || e is Error || e is FileFinished || e is ExecutionFinished ==> told(e)
            is Some,
        told(e) is None ==> e is ScanProgress || e is MetadataProgress,
{
}

// ---------------------------------------------------------------------------
// The plan
// ---------------------------------------------------------------------------

/// How many files of a plan are printed by name.
pub const LISTED_FILES: usize = 50;

/// The name that an action is counted by.
pub open spec fn action_key(a: PlannedAction) -> Seq<char> {
    match a {
        PlannedAction::Copy => "copy"@,
        PlannedAction::SkipExists => "skip(exists)"@,
        PlannedAction::SkipFiltered => "skip(filtered)"@,
        PlannedAction::SkipNoDate => "skip(no-date)"@,
        PlannedAction::Error => "error"@,
    }
}

/// The name that an action is listed by.
pub open spec fn action_word(a: PlannedAction) -> Seq<char> {
    match a {
        PlannedAction::Copy => "COPY"@,
        PlannedAction::SkipExists => "SKIP-EXISTS"@,
        PlannedAction::SkipFiltered => "SKIP-FILTER"@,
        PlannedAction::SkipNoDate => "SKIP-NODATE"@,
        PlannedAction::Error => "ERROR"@,
    }
}

/// How many files an action is planned for.
pub open spec fn count_action(items: Seq<PlannedFileView>, a: PlannedAction) -> nat
    decreases items.len(),
{
    if items.len() == 0 {
        0
    } else {
        count_action(items.drop_last(), a) + if items.last().action == a {
            1nat
        } else {
            0nat
        }
    }
}

/// How many files an action is planned for, where there are any.
pub open spec fn count_line(items: Seq<PlannedFileView>, a: PlannedAction) -> Seq<Seq<char>> {
    let n = count_action(items, a);
    if n > 0 {
        seq!["  "@ + text::space_pad(action_key(a), 16) + " "@ + text::decimal(n)]
    } else {
        Seq::empty()
    }
}

/// The counts of all actions, in the order of their names.
pub open spec fn count_lines(items: Seq<PlannedFileView>) -> Seq<Seq<char>> {
    count_line(items, PlannedAction::Copy) + count_line(items, PlannedAction::Error) + count_line(
        items,
        PlannedAction::SkipExists,
    ) + count_line(items, PlannedAction::SkipFiltered) + count_line(items, PlannedAction::SkipNoDate)
}

/// The line of a file.
pub open spec fn item_line(f: PlannedFileView) -> Seq<char> {
    "  "@ + text::space_pad(action_word(f.action), 12) + " "@ + f.source_rel_path
}

/// The lines of several files.
pub open spec fn item_lines(items: Seq<PlannedFileView>) -> Seq<Seq<char>> {
    items.map_values(|f: PlannedFileView| item_line(f))
}

/// The first files of a plan, and how many there are more.
pub open spec fn listing(items: Seq<PlannedFileView>) -> Seq<Seq<char>> {
    if items.len() > LISTED_FILES {
        item_lines(items.take(LISTED_FILES as int)).push(
            "  ... and "@ + text::decimal((items.len() - LISTED_FILES) as nat) + " more"@,
        )
    } else {
        item_lines(items)
    }
}

/// What is printed of a plan before it is executed.
pub open spec fn plan_report(p: PlanView, dry_run: bool) -> Seq<Seq<char>> {
    let head = seq![
        ""@,
        "=== Plan ==="@,
        "  copies: "@ + text::decimal(plan::count_copies(p.items)) + "   skips: "@ + text::decimal(
            plan::count_skips(p.items),
        ) + "   errors: "@ + text::decimal(plan::count_errors(p.items)),
        ""@,
    ];
    let foot = seq![
        ""@,
        if dry_run {
            "=== Dry run (no files written) ==="@
        } else {
            "=== Executing ==="@
        },
    ];
    (head + count_lines(p.items)).push(""@) + listing(p.items) + foot
}

fn add_line(lines: &mut Vec<String>, s: String)
    ensures
        text::texts(final(lines)@) == text::texts(old(lines)@).push(s@),
{
    let ghost before = text::texts(lines@);
    let ghost new = s@;
    lines.push(s);
    proof {
        assert(text::texts(lines@) =~= before.push(new));
    }
}

fn key_text(a: PlannedAction) -> (r: &'static str)
    ensures
        r@ == action_key(a),
{
    match a {
        PlannedAction::Copy => "copy",
        PlannedAction::SkipExists => "skip(exists)",
        PlannedAction::SkipFiltered => "skip(filtered)",
        PlannedAction::SkipNoDate => "skip(no-date)",
        PlannedAction::Error => "error",
    }
}

fn word_text(a: PlannedAction) -> (r: &'static str)
    ensures
        r@ == action_word(a),
{
    match a {
        PlannedAction::Copy => "COPY",
        PlannedAction::SkipExists => "SKIP-EXISTS",
        PlannedAction::SkipFiltered => "SKIP-FILTER",
        PlannedAction::SkipNoDate => "SKIP-NODATE",
        PlannedAction::Error => "ERROR",
    }
}

fn count_planned(p: &SyncPlan, a: PlannedAction) -> (r: u64)
    ensures
        r == count_action(p@.items, a),
{
    let mut n: u64 = 0;
    let mut i: usize = 0;
    while i < p.items.len()
        invariant
            i <= p.items@.len(),
            n == count_action(p@.items.take(i as int), a),
            n <= i,
        decreases p.items@.len() - i,
    {
        proof {
            assert(p@.items.take(i + 1).drop_last() =~= p@.items.take(i as int));
        }
        if p.items[i].action == a {
            n += 1;
        }
        i += 1;
    }
    proof {
        assert(p@.items.take(p@.items.len() as int) =~= p@.items);
    }
    n
}

fn add_count(lines: &mut Vec<String>, p: &SyncPlan, a: PlannedAction)
    ensures
        text::texts(final(lines)@) == text::texts(old(lines)@) + count_line(p@.items, a),
{
    let ghost before = text::texts(lines@);
    let n: u64 = count_planned(p, a);
    if n > 0 {
        let named = text::with(
            text::with(text::copy_str("  "), &text::space_padded(key_text(a), 16)),
            " ",
        );
        add_line(lines, text::with(named, &text::decimal_text(n)));
    }
    proof {
        assert(text::texts(lines@) =~= before + count_line(p@.items, a));
    }
}

fn add_listing(lines: &mut Vec<String>, p: &SyncPlan)
    ensures
        text::texts(final(lines)@) == text::texts(old(lines)@) + listing(p@.items),
{
    let ghost before = text::texts(lines@);
    let ghost items = p@.items;
    let ghost all = item_lines(items);
    let n: usize = p.items.len();
    let shown: usize = if n > LISTED_FILES {
        LISTED_FILES
    } else {
        n
    };
    let mut i: usize = 0;
    proof {
        assert(text::texts(lines@) =~= before + all.take(0));
    }
    while i < shown
        invariant
            i <= shown <= n,
            n == p.items@.len(),
            items == p@.items,
            all == item_lines(items),
            text::texts(lines@) == before + all.take(i as int),
        decreases shown - i,
    {
        let f = &p.items[i];
        let named = text::with(
            text::with(text::copy_str("  "), &text::space_padded(word_text(f.action), 12)),
            " ",
        );
        add_line(lines, text::with(named, f.source_rel_path.as_str()));
        proof {
            assert(all[i as int] == item_line(p.items@[i as int]@));
            assert(text::texts(lines@) =~= before + all.take(i + 1));
        }
        i += 1;
    }
    proof {
        assert(all.take(shown as int) =~= item_lines(items.take(shown as int)));
        assert(items.take(n as int) =~= items);
    }
    if n > LISTED_FILES {
        let more: u64 = (n - LISTED_FILES) as u64;
        add_line(
            lines,
            text::with(
                text::with(text::copy_str("  ... and "), &text::decimal_text(more)),
                " more",
            ),
        );
    }
    proof {
        assert(text::texts(lines@) =~= before + listing(items));
    }
}

/// What is printed of a plan before it is executed: the counts, the first files, and
/// whether it is executed or only tried.
pub fn plan_lines(p: &SyncPlan, dry_run: bool) -> (r: Vec<String>)
    ensures
        text::texts(r@) == plan_report(p@, dry_run),
{
    let mut lines: Vec<String> = Vec::new();
    add_line(&mut lines, text::copy_str(""));
    add_line(&mut lines, text::copy_str("=== Plan ==="));
    let copies = text::with(text::copy_str("  copies: "), &text::decimal_text(p.copies()));
    let skips = text::with(text::with(copies, "   skips: "), &text::decimal_text(p.skips()));
    add_line(
        &mut lines,
        text::with(text::with(skips, "   errors: "), &text::decimal_text(p.errors())),
    );
    add_line(&mut lines, text::copy_str(""));
    let ghost head = text::texts(lines@);
    add_count(&mut lines, p, PlannedAction::Copy);
    add_count(&mut lines, p, PlannedAction::Error);
    add_count(&mut lines, p, PlannedAction::SkipExists);
    add_count(&mut lines, p, PlannedAction::SkipFiltered);
    add_count(&mut lines, p, PlannedAction::SkipNoDate);
    proof {
        assert(text::texts(lines@) =~= head + count_lines(p@.items));
    }
    add_line(&mut lines, text::copy_str(""));
    add_listing(&mut lines, p);
    add_line(&mut lines, text::copy_str(""));
    add_line(
        &mut lines,
        if dry_run {
            text::copy_str("=== Dry run (no files written) ===")
        } else {
            text::copy_str("=== Executing ===")
        },
    );
    proof {
        assert(text::texts(lines@) =~= plan_report(p@, dry_run));
    }
    lines
}

// ---------------------------------------------------------------------------
// Catalogues, profiles and sources
// ---------------------------------------------------------------------------

/// What is printed of a catalogue.
pub open spec fn catalogue_block(e: Entry) -> Seq<Seq<char>> {
    seq![
        e.0,
        "  images root: "@ + e.1.images_root,
        "  images folders: "@ + e.1.images_template,
        "  videos root: "@ + e.1.videos_root,
        "  videos folders: "@ + e.1.videos_template,
    ]
}

/// What is printed of several catalogues, with an empty line between them.
pub open spec fn catalogue_blocks(es: Seq<Entry>) -> Seq<Seq<char>>
    decreases es.len(),
{
    if es.len() == 0 {
        Seq::empty()
    } else if es.len() == 1 {
        catalogue_block(es[0])
    } else {
        catalogue_blocks(es.drop_last()).push(""@) + catalogue_block(es.last())
    }
}

/// What is printed of all catalogues.
pub open spec fn catalogue_report(es: Seq<Entry>) -> Seq<Seq<char>> {
    if es.len() == 0 {
        seq!["No catalogues configured."@]
    } else {
        catalogue_blocks(es)
    }
}

/// The catalogues with their roots and folders, in the order of their names.
pub fn catalogue_lines(cfg: &AppConfig) -> (r: Vec<String>)
    ensures
        text::texts(r@) == catalogue_report(cfg@.catalogues),
{
    let ghost es = cfg@.catalogues;
    let n: usize = cfg.catalogues.len();
    let mut lines: Vec<String> = Vec::new();
    proof {
        assert(text::texts(lines@) =~= catalogue_blocks(es.take(0)));
    }
    if n == 0 {
        add_line(&mut lines, text::copy_str("No catalogues configured."));
        proof {
            assert(text::texts(lines@) =~= catalogue_report(es));
        }
        return lines;
    }
    let mut i: usize = 0;
    while i < n
        invariant
            i <= n,
            n == es.len(),
            es == cfg@.catalogues,
            text::texts(lines@) == catalogue_blocks(es.take(i as int)),
        decreases n - i,
    {
        let ghost before = text::texts(lines@);
        if i > 0 {
            add_line(&mut lines, text::copy_str(""));
        }
        let ghost apart = text::texts(lines@);
        let c = cfg.catalogues.at(i);
        add_line(&mut lines, text::copy_str(cfg.catalogues.name_at(i)));
        add_line(
            &mut lines,
            text::with(text::copy_str("  images root: "), c.images_root.as_str()),
        );
        add_line(
            &mut lines,
            text::with(text::copy_str("  images folders: "), c.images_template.as_str()),
        );
        add_line(
            &mut lines,
            text::with(text::copy_str("  videos root: "), c.videos_root.as_str()),
        );
        add_line(
            &mut lines,
            text::with(text::copy_str("  videos folders: "), c.videos_template.as_str()),
        );
        proof {
            let e = es[i as int];
            let here = es.take(i + 1);
            assert(here.last() == e);
            assert(here.drop_last() =~= es.take(i as int));
            assert(text::texts(lines@) =~= apart + catalogue_block(e));
            if i == 0 {
                assert(here[0] == e);
                assert(apart =~= Seq::<Seq<char>>::empty());
                assert(text::texts(lines@) =~= catalogue_block(e));
            }
        }
        i += 1;
    }
    proof {
        assert(es.take(n as int) =~= es);
    }
    lines
}

/// What is printed of a camera profile.
pub open spec fn profile_line(p: ProfileView) -> Seq<char> {
    "  "@ + text::space_pad(p.id, 20) + " "@ + p.display_name + " (raw: "@ + text::join(
        p.raw_extensions,
        ","@,
    ) + ", image: "@ + text::join(p.image_extensions, ","@) + ", video: "@ + text::join(
        p.video_extensions,
        ","@,
    ) + ")"@
}

/// What is printed of all camera profiles.
pub open spec fn profile_report(ps: Seq<ProfileView>) -> Seq<Seq<char>> {
    seq!["Built-in profiles:"@] + ps.map_values(|p: ProfileView| profile_line(p))
}

fn profile_text(p: &CameraProfile) -> (r: String)
    ensures
        r@ == profile_line(p@),
{
    let id = text::with(
        text::with(text::copy_str("  "), &text::space_padded(p.id.as_str(), 20)),
        " ",
    );
    let name = text::with(text::with(id, p.display_name.as_str()), " (raw: ");
    let raw = text::with(text::with(name, &text::join_with(&p.raw_extensions, ",")), ", image: ");
    let image = text::with(
        text::with(raw, &text::join_with(&p.image_extensions, ",")),
        ", video: ",
    );
    text::with(text::with(image, &text::join_with(&p.video_extensions, ",")), ")")
}

/// The camera profiles with what they import.
pub fn profile_lines(registry: &ProfileRegistry) -> (r: Vec<String>)
    ensures
        text::texts(r@) == profile_report(registry@),
{
    let ps: &Vec<CameraProfile> = registry.iter();
    let ghost all = profile_report(registry@);
    let mut lines: Vec<String> = Vec::new();
    add_line(&mut lines, text::copy_str("Built-in profiles:"));
    let mut i: usize = 0;
    proof {
        assert(text::texts(lines@) =~= all.take(1));
    }
    while i < ps.len()
        invariant
            i <= ps@.len(),
            registry@ == profiles::profiles_view(ps@),
            all == profile_report(registry@),
            text::texts(lines@) == all.take(i + 1),
        decreases ps@.len() - i,
    {
        add_line(&mut lines, profile_text(&ps[i]));
        proof {
            assert(all[i + 1] == profile_line(ps@[i as int]@));
            assert(text::texts(lines@) =~= all.take(i + 2));
        }
        i += 1;
    }
    proof {
        assert(all.take(all.len() as int) =~= all);
    }
    lines
}

/// What is printed of a volume.
pub open spec fn source_line(m: MountView) -> Seq<char> {
    "  "@ + (match m.rank {
        MountRank::CameraCard => "[CAMERA]"@,
        MountRank::Removable => "[remov.]"@,
        MountRank::Other => "[other ]"@,
    }) + " "@ + text::space_pad(m.label, 24) + " "@ + m.path.text
}

/// What is printed of all volumes.
pub open spec fn source_report(ms: Seq<MountView>) -> Seq<Seq<char>> {
    if ms.len() == 0 {
        seq!["No mounted sources detected."@]
    } else {
        seq!["Detected sources:"@] + ms.map_values(|m: MountView| source_line(m))
    }
}

fn source_text(m: &DetectedMount) -> (r: String)
    ensures
        r@ == source_line(m@),
{
    let tag = match m.rank {
        MountRank::CameraCard => "[CAMERA]",
        MountRank::Removable => "[remov.]",
        MountRank::Other => "[other ]",
    };
    let tagged = text::with(text::with(text::copy_str("  "), tag), " ");
    let label = text::with(text::with(tagged, &text::space_padded(m.label.as_str(), 24)), " ");
    text::with(label, m.path.text.as_str())
}

/// The mounted volumes.
pub fn source_lines(mounts: &Vec<DetectedMount>) -> (r: Vec<String>)
    ensures
        text::texts(r@) == source_report(mount::mounts_view(mounts@)),
{
    let ghost ms = mount::mounts_view(mounts@);
    let ghost all = source_report(ms);
    let mut lines: Vec<String> = Vec::new();
    if mounts.len() == 0 {
        add_line(&mut lines, text::copy_str("No mounted sources detected."));
        proof {
            assert(text::texts(lines@) =~= all);
        }
        return lines;
    }
    add_line(&mut lines, text::copy_str("Detected sources:"));
    let mut i: usize = 0;
    proof {
        assert(text::texts(lines@) =~= all.take(1));
    }
    while i < mounts.len()
        invariant
            i <= mounts@.len(),
            mounts@.len() > 0,
            ms == mount::mounts_view(mounts@),
            all == source_report(ms),
            text::texts(lines@) == all.take(i + 1),
        decreases mounts@.len() - i,
    {
        add_line(&mut lines, source_text(&mounts[i]));
        proof {
            assert(all[i + 1] == source_line(mounts@[i as int]@));
            assert(text::texts(lines@) =~= all.take(i + 2));
        }
        i += 1;
    }
    proof {
        assert(all.take(all.len() as int) =~= all);
    }
    lines
}

// ---------------------------------------------------------------------------
// Laws
// ---------------------------------------------------------------------------

/// The counts that are printed for the actions add up to the files of the plan.
pub proof fn law_action_counts_cover_the_plan(items: Seq<PlannedFileView>)
    ensures
        count_action(items, PlannedAction::Copy) == plan::count_copies(items),
        count_action(items, PlannedAction::Error) == plan::count_errors(items),
        count_action(items, PlannedAction::SkipExists) + count_action(
            items,
            PlannedAction::SkipFiltered,
        ) + count_action(items, PlannedAction::SkipNoDate) == plan::count_skips(items),
    decreases items.len(),
{
    if items.len() > 0 {
        law_action_counts_cover_the_plan(items.drop_last());
    }
}

/// Every option sets what it names, and nothing else.
pub proof fn law_options_set_what_they_name(cfg: AppConfig, o: Overrides, r: AppConfig)
    requires
        r@ == overridden(cfg@, o),
    ensures
        o.raw_mode matches Some(m) ==> r.filters.raw_mode == m,
        o.raw_mode is None ==> r.filters.raw_mode == cfg.filters.raw_mode,
        o.no_videos ==> !r.filters.include_videos,
        !o.no_videos ==> r.filters.include_videos == cfg.filters.include_videos,
        o.no_sidecars ==> !r.filters.include_sidecars,
        !o.no_sidecars ==> r.filters.include_sidecars == cfg.filters.include_sidecars,
        o.copy_workers matches Some(n) ==> r.performance.copy_workers == n,
        o.copy_workers is None ==> r.performance == cfg.performance,
        o.verify ==> r.verify.enabled,
        !o.verify ==> r.verify == cfg.verify,
        r@.catalogues == cfg@.catalogues,
{
}

proof fn lemma_progress_counts(s: SyncSummary)
    ensures
        text::holds(progress_line(s), " (copied="@ + text::decimal(s.copied as nat)),
        text::holds(
            progress_line(s),
            text::decimal((s.copied + s.skipped + s.failed) as nat) + "/"@ + text::decimal(
                s.total as nat,
            ),
        ),
{
    let d = text::decimal((s.copied + s.skipped + s.failed) as nat);
    let t = text::decimal(s.total as nat);
    let c = text::decimal(s.copied as nat);
    let rest = " skipped="@ + text::decimal(s.skipped as nat) + " failed="@ + text::decimal(
        s.failed as nat,
    ) + ")"@;
    let line = progress_line(s);
    let a = "  progress: "@;
    let b = a + d + "/"@ + t;
    assert(line =~= b + (" (copied="@ + c) + rest);
    text::law_text_is_found_where_it_stands(b, " (copied="@ + c, rest);
    assert(b =~= a + (d + "/"@ + t));
    assert(line =~= a + (d + "/"@ + t) + (" (copied="@ + c + rest));
    text::law_text_is_found_where_it_stands(a, d + "/"@ + t, " (copied="@ + c + rest);
}

proof fn lemma_progress_losses(s: SyncSummary)
    ensures
        text::holds(progress_line(s), " skipped="@ + text::decimal(s.skipped as nat)),
        text::holds(progress_line(s), " failed="@ + text::decimal(s.failed as nat) + ")"@),
{
    let k = text::decimal(s.skipped as nat);
    let f = text::decimal(s.failed as nat);
    let line = progress_line(s);
    let e = "  progress: "@ + text::decimal((s.copied + s.skipped + s.failed) as nat) + "/"@
        + text::decimal(s.total as nat) + " (copied="@ + text::decimal(s.copied as nat);
    let g = e + " skipped="@ + k;
    let last = " failed="@ + f + ")"@;
    assert(line =~= g + last + Seq::empty());
    text::law_text_is_found_where_it_stands(g, last, Seq::empty());
    assert(g + last =~= e + (" skipped="@ + k) + last);
    assert(line =~= e + (" skipped="@ + k) + last);
    text::law_text_is_found_where_it_stands(e, " skipped="@ + k, last);
}

/// What is printed of an import in progress has every number behind its name, and how many
/// files are done out of all.
pub proof fn law_progress_has_its_numbers(s: SyncSummary)
    ensures
        text::holds(progress_line(s), " (copied="@ + text::decimal(s.copied as nat)),
        text::holds(progress_line(s), " skipped="@ + text::decimal(s.skipped as nat)),
        text::holds(progress_line(s), " failed="@ + text::decimal(s.failed as nat) + ")"@),
        text::holds(
            progress_line(s),
            text::decimal((s.copied + s.skipped + s.failed) as nat) + "/"@ + text::decimal(
                s.total as nat,
            ),
        ),
{
    lemma_progress_counts(s);
    lemma_progress_losses(s);
}

/// What is printed of an import that is over has every number behind its name, and ends in
/// saying so exactly where the import was cancelled.
pub proof fn law_summary_has_its_numbers(s: SyncSummary)
    ensures
        text::holds(summary_line(s), " copied="@ + text::decimal(s.copied as nat)),
        text::holds(summary_line(s), " skipped="@ + text::decimal(s.skipped as nat)),
        text::holds(summary_line(s), " failed="@ + text::decimal(s.failed as nat)),
        s.cancelled ==> " cancelled"@.is_suffix_of(summary_line(s)),
        !s.cancelled ==> (" failed="@ + text::decimal(s.failed as nat)).is_suffix_of(summary_line(s)),
{
    reveal_strlit("\nsummary: copied=");
    reveal_strlit(" copied=");
    reveal_strlit("\nsummary:");
    reveal_strlit("");
    let c = text::decimal(s.copied as nat);
    let k = text::decimal(s.skipped as nat);
    let f = text::decimal(s.failed as nat);
    let end = if s.cancelled {
        " cancelled"@
    } else {
        ""@
    };
    let line = summary_line(s);
    assert("\nsummary: copied="@ =~= "\nsummary:"@ + " copied="@);
    let rest = " skipped="@ + k + " failed="@ + f + end;
    text::law_text_is_found_where_it_stands("\nsummary:"@, " copied="@ + c, rest);
    assert(line =~= "\nsummary:"@ + (" copied="@ + c) + rest);
    let b = "\nsummary: copied="@ + c;
    text::law_text_is_found_where_it_stands(b, " skipped="@ + k, " failed="@ + f + end);
    assert(line =~= b + (" skipped="@ + k) + (" failed="@ + f + end));
    let g = b + " skipped="@ + k;
    text::law_text_is_found_where_it_stands(g, " failed="@ + f, end);
    assert(line =~= g + (" failed="@ + f) + end);
    if s.cancelled {
        assert(line.skip(line.len() - end.len()) =~= end);
    } else {
        let last = " failed="@ + f;
        assert(line.skip(line.len() - last.len()) =~= last);
    }
}

/// What is printed of a finished file begins with what became of it and its path; a copy ends
/// in its destination, and tells its size.
pub proof fn law_finished_files_are_told(
    rel_path: Seq<char>,
    d: Seq<char>,
    bytes: u64,
    why: Seq<char>,
)
    ensures
        ({
            let line = finished_line(rel_path, Some(d), OutcomeView::Copied { bytes });
            &&& ("  copied "@ + rel_path).is_prefix_of(line)
            &&& (" ("@ + text::decimal(bytes as nat) + " bytes) -> "@ + d).is_suffix_of(line)
        }),
        ({
            let line = finished_line(rel_path, Some(d), OutcomeView::Skipped { reason: why });
            &&& ("  skip "@ + rel_path).is_prefix_of(line)
            &&& (" ("@ + why + ")"@).is_suffix_of(line)
        }),
        ({
            let line = finished_line(rel_path, Some(d), OutcomeView::Failed { error: why });
            &&& ("  FAIL "@ + rel_path).is_prefix_of(line)
            &&& (" ("@ + why + ")"@).is_suffix_of(line)
        }),
{
    let copied = finished_line(rel_path, Some(d), OutcomeView::Copied { bytes });
    let begin = "  copied "@ + rel_path;
    let end = " ("@ + text::decimal(bytes as nat) + " bytes) -> "@ + d;
    assert(copied.take(begin.len() as int) =~= begin);
    assert(copied.skip(copied.len() - end.len()) =~= end);
    let tail = " ("@ + why + ")"@;
    let skipped = finished_line(rel_path, Some(d), OutcomeView::Skipped { reason: why });
    let skip = "  skip "@ + rel_path;
    assert(skipped.take(skip.len() as int) =~= skip);
    assert(skipped.skip(skipped.len() - tail.len()) =~= tail);
    let failed = finished_line(rel_path, Some(d), OutcomeView::Failed { error: why });
    let fail = "  FAIL "@ + rel_path;
    assert(failed.take(fail.len() as int) =~= fail);
    assert(failed.skip(failed.len() - tail.len()) =~= tail);
}

/// What is printed of a scan names the source and the camera; what is printed of a file that
/// is started names the file.
pub proof fn law_names_are_told(
    source: Seq<char>,
    name: Seq<char>,
    profile: DetectedProfileView,
    file: PlannedFileView,
)
    ensures
        told(EventView::ScanStarted { source, display_name: name }) matches Some(line)
            && name.is_suffix_of(line),
        told(EventView::ProfileDetected { profile }) matches Some(line) && (profile.display_name
            + " ("@ + profile.id + ")"@).is_suffix_of(line),
        told(EventView::FileStarted { file }) matches Some(line)
            && file.source_rel_path.is_suffix_of(line),
{
    let started = told(EventView::ScanStarted { source, display_name: name })->0;
    assert(started.skip(started.len() - name.len()) =~= name);
    let camera = told(EventView::ProfileDetected { profile })->0;
    let p = profile.display_name + " ("@ + profile.id + ")"@;
    assert(camera.skip(camera.len() - p.len()) =~= p);
    let file_line = told(EventView::FileStarted { file })->0;
    assert(file_line.skip(file_line.len() - file.source_rel_path.len()) =~= file.source_rel_path);
}

/// What is printed of a warning begins with its kind and ends in the file that it is about and
/// its message.
pub proof fn law_warnings_are_told_in_full(kind: WarningKind, message: Seq<char>, f: FileIdView)
    ensures
        told(EventView::Warning { kind, message, file: Some(f) }) matches Some(line) && ("warn ["@
            + warning_name(kind)).is_prefix_of(line) && (" ("@ + f.rel_path + ")"@ + ": "@
            + message).is_suffix_of(line),
{
    let tail = " ("@ + f.rel_path + ")"@ + ": "@ + message;
    let warn = told(EventView::Warning { kind, message, file: Some(f) })->0;
    let w = "warn ["@ + warning_name(kind);
    assert(warn.take(w.len() as int) =~= w);
    assert(warn.skip(warn.len() - tail.len()) =~= tail);
}

/// What is printed of an error begins with its kind and ends in the file that it is about, if
/// any, and its message.
pub proof fn law_errors_are_told_in_full(
    kind: OperationErrorKind,
    message: Seq<char>,
    f: FileIdView,
)
    ensures
        told(EventView::Error { kind, message, file: Some(f) }) matches Some(line) && ("error ["@
            + error_name(kind)).is_prefix_of(line) && (" ("@ + f.rel_path + ")"@ + ": "@
            + message).is_suffix_of(line),
        told(EventView::Error { kind, message, file: None }) matches Some(line) && ("]"@ + ": "@
            + message).is_suffix_of(line),
{
    let tail = " ("@ + f.rel_path + ")"@ + ": "@ + message;
    let error = told(EventView::Error { kind, message, file: Some(f) })->0;
    let e = "error ["@ + error_name(kind);
    assert(error.take(e.len() as int) =~= e);
    assert(error.skip(error.len() - tail.len()) =~= tail);
    reveal_strlit("");
    let bare = told(EventView::Error { kind, message, file: None })->0;
    let end = "]"@ + ": "@ + message;
    assert(bare.skip(bare.len() - end.len()) =~= end);
}

/// What is printed of a plan that is ready has its numbers in order.
pub proof fn law_plan_numbers_are_told(plan: PlanSummary)
    ensures
        told(EventView::PlanReady { summary: plan }) matches Some(line) && (text::decimal(
            plan.copies as nat,
        ) + " copies, "@ + text::decimal(plan.skips as nat) + " skips, "@ + text::decimal(
            plan.errors as nat,
        ) + " errors"@).is_suffix_of(line),
{
    let numbers = text::decimal(plan.copies as nat) + " copies, "@ + text::decimal(
        plan.skips as nat,
    ) + " skips, "@ + text::decimal(plan.errors as nat) + " errors"@;
    let line = told(EventView::PlanReady { summary: plan })->0;
    assert(line.skip(line.len() - numbers.len()) =~= numbers);
}

/// What is printed of an import that begins tells whether it only tries, and how many files and
/// bytes it has.
pub proof fn law_beginnings_are_told(files: u64, bytes: u64, dry_run: bool)
    ensures
        told(
            EventView::ExecutionStarted { total_files: files, total_bytes: bytes, dry_run },
        ) matches Some(line) && (text::decimal(files as nat) + " files ("@ + text::decimal(
            bytes as nat,
        ) + " bytes)"@).is_suffix_of(line) && (dry_run ==> ("  "@ + "dry-running"@).is_prefix_of(line)) && (!dry_run ==> ("  "@
            + "executing"@).is_prefix_of(line)),
{
    let size = text::decimal(files as nat) + " files ("@ + text::decimal(bytes as nat)
        + " bytes)"@;
    let verb = if dry_run {
        "dry-running"@
    } else {
        "executing"@
    };
    let line = told(
        EventView::ExecutionStarted { total_files: files, total_bytes: bytes, dry_run },
    )->0;
    assert(line.skip(line.len() - size.len()) =~= size);
    assert(line.take(("  "@ + verb).len() as int) =~= "  "@ + verb);
}

/// What is printed of a file in progress tells its path and how much of it is copied; metadata
/// is told every two hundred files, and when it is complete.
pub proof fn law_shares_are_told(f: FileIdView, done: u64, total: u64)
    ensures
        told(
            EventView::FileProgress { file: f, bytes_done: done, bytes_total: total },
        ) matches Some(line) && (f.rel_path + ": "@ + text::decimal(done as nat) + "/"@
            + text::decimal(total as nat)).is_suffix_of(line),
        done == total || done % 200 == 0 ==> (told(
            EventView::MetadataProgress { done, total },
        ) matches Some(line) && (text::decimal(done as nat) + "/"@ + text::decimal(
            total as nat,
        )).is_suffix_of(line)),
        done != total && done % 200 != 0 ==> told(EventView::MetadataProgress { done, total })
            is None,
{
    let share = f.rel_path + ": "@ + text::decimal(done as nat) + "/"@ + text::decimal(
        total as nat,
    );
    let line = told(
        EventView::FileProgress { file: f, bytes_done: done, bytes_total: total },
    )->0;
    assert(line.skip(line.len() - share.len()) =~= share);
    if done == total || done % 200 == 0 {
        let part = text::decimal(done as nat) + "/"@ + text::decimal(total as nat);
        let meta = told(EventView::MetadataProgress { done, total })->0;
        assert(meta.skip(meta.len() - part.len()) =~= part);
    }
}

/// A plan of up to fifty files is listed whole, a longer one by its first fifty files and how
/// many there are more; every line has the path of its file.
pub proof fn law_plans_are_listed(items: Seq<PlannedFileView>, i: int)
    requires
        0 <= i < items.len(),
        i < 50,
    ensures
        items.len() <= 50 ==> listing(items).len() == items.len(),
        items.len() > 50 ==> listing(items).len() == 51 && text::holds(
            listing(items)[50],
            text::decimal((items.len() - 50) as nat),
        ),
        items[i].source_rel_path.is_suffix_of(listing(items)[i]),
        listing(items)[i] == item_line(items[i]),
{
    let line = item_line(items[i]);
    assert(line.skip(line.len() - items[i].source_rel_path.len()) =~= items[i].source_rel_path);
    if items.len() > 50 {
        text::law_text_is_found_where_it_stands(
            "  ... and "@,
            text::decimal((items.len() - 50) as nat),
            " more"@,
        );
    }
}

/// The names of two actions differ, in the counts and in the list.
pub proof fn law_actions_have_their_names(a: PlannedAction, b: PlannedAction)
    requires
        a != b,
    ensures
        action_key(a) != action_key(b),
        action_word(a) != action_word(b),
{
    reveal_strlit("copy");
    reveal_strlit("skip(exists)");
    reveal_strlit("skip(filtered)");
    reveal_strlit("skip(no-date)");
    reveal_strlit("error");
    reveal_strlit("COPY");
    reveal_strlit("SKIP-EXISTS");
    reveal_strlit("SKIP-FILTER");
    reveal_strlit("SKIP-NODATE");
    reveal_strlit("ERROR");
    assert(action_key(a).len() != action_key(b).len());
    assert(action_word(a).len() != action_word(b).len() || action_word(a)[5] != action_word(b)[5]);
}

/// Every file is counted once, under its own action.
pub proof fn law_actions_count_every_file(
    items: Seq<PlannedFileView>,
    f: PlannedFileView,
    a: PlannedAction,
)
    ensures
        count_action(Seq::empty(), a) == 0,
        count_action(items.push(f), a) == count_action(items, a) + if f.action == a {
            1int
        } else {
            0int
        },
{
    assert(items.push(f).drop_last() =~= items);
}

/// A catalogue is printed by its name, its roots and its folders, each next to its own name,
/// and catalogues are printed one after another, with an empty line between them.
pub proof fn law_catalogues_are_printed(es: Seq<Entry>, e: Entry)
    ensures
        catalogue_block(e).len() == 5,
        catalogue_block(e)[0] == e.0,
        catalogue_block(e).contains("  images root: "@ + e.1.images_root),
        catalogue_block(e).contains("  images folders: "@ + e.1.images_template),
        catalogue_block(e).contains("  videos root: "@ + e.1.videos_root),
        catalogue_block(e).contains("  videos folders: "@ + e.1.videos_template),
        catalogue_report(seq![e]) == catalogue_block(e),
        es.len() > 0 ==> catalogue_report(es.push(e)) == catalogue_report(es).push(""@)
            + catalogue_block(e),
{
    let block = catalogue_block(e);
    assert(block[1] == "  images root: "@ + e.1.images_root);
    assert(block[2] == "  images folders: "@ + e.1.images_template);
    assert(block[3] == "  videos root: "@ + e.1.videos_root);
    assert(block[4] == "  videos folders: "@ + e.1.videos_template);
    assert(es.push(e).drop_last() =~= es);
}

/// A camera is printed with its name, its identifier and every list of extensions next to its
/// kind; a volume by its label and its path. One line follows for each.
pub proof fn law_cameras_and_volumes_are_printed(
    ps: Seq<ProfileView>,
    i: int,
    ms: Seq<MountView>,
    j: int,
)
    requires
        0 <= i < ps.len(),
        0 <= j < ms.len(),
    ensures
        profile_report(ps).len() == ps.len() + 1,
        text::holds(profile_report(ps)[i + 1], text::space_pad(ps[i].id, 20)),
        text::holds(
            profile_report(ps)[i + 1],
            ps[i].display_name + " (raw: "@ + text::join(ps[i].raw_extensions, ","@),
        ),
        text::holds(
            profile_report(ps)[i + 1],
            ", image: "@ + text::join(ps[i].image_extensions, ","@),
        ),
        text::holds(
            profile_report(ps)[i + 1],
            ", video: "@ + text::join(ps[i].video_extensions, ","@) + ")"@,
        ),
        source_report(ms).len() == ms.len() + 1,
        ms[j].path.text.is_suffix_of(source_report(ms)[j + 1]),
        text::holds(source_report(ms)[j + 1], text::space_pad(ms[j].label, 24)),
        ms[j].rank == MountRank::CameraCard ==> text::holds(
            source_report(ms)[j + 1],
            "[CAMERA]"@,
        ),
{
    let p = ps[i];
    let line = profile_report(ps)[i + 1];
    assert(line == profile_line(p));
    let empty = Seq::<char>::empty();
    let id = text::space_pad(p.id, 20);
    let raw = p.display_name + " (raw: "@ + text::join(p.raw_extensions, ","@);
    let image = ", image: "@ + text::join(p.image_extensions, ","@);
    let video = ", video: "@ + text::join(p.video_extensions, ","@) + ")"@;
    text::law_text_is_found_where_it_stands("  "@, id, " "@ + raw + image + video);
    assert(line =~= "  "@ + id + (" "@ + raw + image + video));
    text::law_text_is_found_where_it_stands("  "@ + id + " "@, raw, image + video);
    assert(line =~= "  "@ + id + " "@ + raw + (image + video));
    text::law_text_is_found_where_it_stands("  "@ + id + " "@ + raw, image, video);
    assert(line =~= "  "@ + id + " "@ + raw + image + video);
    text::law_text_is_found_where_it_stands("  "@ + id + " "@ + raw + image, video, empty);
    assert(line =~= "  "@ + id + " "@ + raw + image + video + empty);
    let m = ms[j];
    let row = source_report(ms)[j + 1];
    assert(row == source_line(m));
    assert(row.skip(row.len() - m.path.text.len()) =~= m.path.text);
    let label = text::space_pad(m.label, 24);
    let tag = match m.rank {
        MountRank::CameraCard => "[CAMERA]"@,
        MountRank::Removable => "[remov.]"@,
        MountRank::Other => "[other ]"@,
    };
    text::law_text_is_found_where_it_stands("  "@ + tag + " "@, label, " "@ + m.path.text);
    assert(row =~= "  "@ + tag + " "@ + label + (" "@ + m.path.text));
    text::law_text_is_found_where_it_stands("  "@, tag, " "@ + label + " "@ + m.path.text);
    assert(row =~= "  "@ + tag + (" "@ + label + " "@ + m.path.text));
}

} // verus!
