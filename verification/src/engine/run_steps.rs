//! What each step of a scan and of a run does.

use vstd::prelude::*;
use crate::classify::MediaKind;
use crate::config::EngineConfig;
use crate::dedupe;
use crate::error::ErrorView;
use crate::events::{EventView, OutcomeView, PlannedFileView, SyncSummary, WarningKind};
use crate::exiftool::MetadataView;
use crate::index::{self, IndexedFileView};
use crate::metadata;
use crate::path;
use crate::path::NativeView;
use crate::plan::{self, PlanView, Sorting, UnitView};
use crate::profiles::{self, ProfileView};
use crate::roots::{self, LockResult, RootState};
use crate::source::SourceFileView;
use crate::text;
use super::dry;
use super::dry::{DryActionView, DryInput, DryStage, DryState};
use super::error_kind;
use super::execute;
use super::execute::{SetupActionView, SetupEvent, SetupStage, SetupState};
use super::scan;
use super::scan::{ScanActionView, ScanInput, ScanStage, ScanState};
use super::staging;
use super::staging::{StagingActionView, StagingInput, StagingStage, StagingState};
use super::Counters;

verus! {

// ---------------------------------------------------------------------------
// Scans
// ---------------------------------------------------------------------------

/// A scan asks about its two roots, announces itself, looks for the markers of all cameras, and
/// tells which camera it found.
pub proof fn law_scans_find_the_camera(s: ScanState, existing: Seq<Seq<char>>, cancelled: bool)
    ensures
        s.stage is Ready ==> s.next(ScanInput::Start, false) == (
            s.at(ScanStage::Checking),
            ScanActionView::CheckRoots {
                images: s.cfg.images_root,
                videos: s.cfg.videos_root,
            },
        ),
        s.stage is Checking ==> s.next(
            ScanInput::Roots(RootState::Directory, RootState::Directory),
            false,
        ).1 == ScanActionView::Emit(
            EventView::ScanStarted { source: s.source, display_name: s.display_name },
        ),
        s.stage is Started ==> s.next(ScanInput::Sent(true), cancelled).1 == (
        ScanActionView::Probe { paths: profiles::all_markers(s.registry, s.root) }),
        s.stage is Probing ==> ({
            let p = profiles::detected(s.registry, s.root, existing);
            let (n, a) = s.next(ScanInput::Existing(existing), cancelled);
            &&& n.stage == ScanStage::Detected(p)
            &&& a matches ScanActionView::Emit(EventView::ProfileDetected { profile }) && profile.id
                == p.id && profile.display_name == p.display_name
        }),
{
}

/// A scan lists the files of its source and indexes the library, and plans with the camera that
/// it found, all of the files that were listed and all of the library; the plan that it
/// announces is the one that it completes with.
pub proof fn law_scans_plan_what_they_found(
    s: ScanState,
    p: ProfileView,
    fs: Seq<SourceFileView>,
    library: Seq<IndexedFileView>,
    e: ErrorView,
)
    requires
        fs.len() <= u64::MAX,
    ensures
        s.stage == ScanStage::Detected(p) ==> s.next(ScanInput::Sent(true), false) == (
            s.at(ScanStage::Listing(p)),
            ScanActionView::ListFiles,
        ),
        s.stage == ScanStage::Listing(p) ==> s.next(ScanInput::Files(Ok(fs)), false).0.stage
            == ScanStage::Counted(p, fs) && s.next(ScanInput::Files(Err(e)), false).1
            == ScanActionView::Fail(e),
        s.stage == ScanStage::Counted(p, fs) ==> s.next(ScanInput::Sent(true), false).0.stage
            == ScanStage::Listed(p, fs) && (s.next(
            ScanInput::Sent(true),
            false,
        ).1 matches ScanActionView::Emit(EventView::ScanComplete { source, files }) && files
            == fs.len()),
        s.stage == ScanStage::Listed(p, fs) ==> s.next(ScanInput::Sent(true), false) == (
            s.at(ScanStage::Indexing(p, fs)),
            ScanActionView::IndexRoots {
                images: s.cfg.images_root,
                videos: s.cfg.videos_root,
            },
        ),
        s.stage == ScanStage::Indexing(p, fs) ==> ({
            let sorting = Sorting {
                cfg: s.cfg,
                profile: p,
                source: s.source,
                library: index::indexed(library),
            };
            let (n, a) = s.next(ScanInput::Indexed(library), false);
            let (end, last) = n.next(ScanInput::Sent(true), false);
            &&& n.stage matches ScanStage::Planned(shown, made) && shown == p && made.units
                == plan::units(sorting.media(fs), sorting.sidecars(fs)) && made.items
                == plan::unit_rows(s.source, made.units) + sorting.rows(fs)
            &&& a matches ScanActionView::Emit(EventView::PlanReady { summary }) && summary
                == scan::summary_of(n.stage->Planned_1)
            &&& last matches ScanActionView::Complete(r) && r.plan == n.stage->Planned_1
                && r.profile.id == p.id && r.profile.display_name == p.display_name
        }),
{
}

/// The announced numbers are those of the plan, each under its own heading.
pub proof fn law_announced_numbers_are_those_of_the_plan(p: PlanView)
    requires
        p.items.len() <= u64::MAX,
    ensures
        scan::summary_of(p).copies == plan::count_copies(p.items),
        scan::summary_of(p).skips == plan::count_skips(p.items),
        scan::summary_of(p).errors == plan::count_errors(p.items),
{
    plan::law_counts_cover_the_plan(p.items);
}

/// A scan that nobody listens to any more, or that is cancelled where it waits, fails as
/// cancelled.
pub proof fn law_unheard_scans_fail(s: ScanState, cancelled: bool)
    ensures
        s.stage is Started || s.stage is Detected || s.stage is Counted || s.stage is Listed
            || s.stage is Planned ==> s.next(ScanInput::Sent(false), cancelled).1
            == ScanActionView::Fail(ErrorView::Cancelled),
        s.stage is Ready ==> s.next(ScanInput::Start, true).1 == ScanActionView::Fail(
            ErrorView::Cancelled,
        ),
        s.stage is Detected || s.stage is Listed || s.stage is Planned ==> s.next(
            ScanInput::Sent(true),
            true,
        ).1 == ScanActionView::Fail(ErrorView::Cancelled),
{
}

// ---------------------------------------------------------------------------
// Setups
// ---------------------------------------------------------------------------

/// An execution asks about its two roots, announces how many files and bytes there are to copy,
/// sends every warning about its layouts, and then does what was asked for: shows what would
/// happen, or copies.
pub proof fn law_setups_lead_to_what_was_asked_for(s: SetupState, k: int)
    requires
        s.cfg.template_warnings.len() <= usize::MAX,
        0 <= k < s.cfg.template_warnings.len(),
    ensures
        s.stage is Ready ==> s.next(SetupEvent::Start, false).1 == (SetupActionView::CheckRoots {
            images: s.cfg.images_root,
            videos: s.cfg.videos_root,
        }),
        s.stage is Checking && s.dry_run ==> s.next(
            SetupEvent::Roots(RootState::Directory, RootState::Directory),
            false,
        ).1 == SetupActionView::Emit(
            EventView::ExecutionStarted {
                total_files: s.total_files,
                total_bytes: s.total_bytes,
                dry_run: s.dry_run,
            },
        ),
        s.stage is Announced ==> s.next(SetupEvent::Sent(true), false).0.stage
            == SetupStage::Warning(0),
        s.stage == SetupStage::Warning(k as usize) && k + 1 < s.cfg.template_warnings.len() ==> (
        s.next(
            SetupEvent::Sent(true),
            false,
        ).1 matches SetupActionView::Emit(EventView::Warning { kind, message, file }) && kind
            == WarningKind::Template && message == s.cfg.template_warnings[k + 1] && file is None),
        s.stage == SetupStage::Warning(k as usize) && k + 1 == s.cfg.template_warnings.len()
            ==> s.next(SetupEvent::Sent(true), false).1 == if s.dry_run {
            SetupActionView::RunDry
        } else {
            SetupActionView::RunStaging
        },
        s.stage is Announced ==> s.next(SetupEvent::Sent(true), true).1 == if s.dry_run {
            SetupActionView::RunDry
        } else {
            SetupActionView::RunStaging
        },
{
}

/// An execution without warnings goes on at once.
pub proof fn law_setups_without_warnings_go_on(s: SetupState)
    requires
        s.cfg.template_warnings.len() == 0,
        s.stage is Announced,
    ensures
        s.next(SetupEvent::Sent(true), false).1 == if s.dry_run {
            SetupActionView::RunDry
        } else {
            SetupActionView::RunStaging
        },
{
}

/// The bytes to copy are those of the files that are to be copied, and of no other.
pub proof fn law_only_copies_count_their_bytes(items: Seq<PlannedFileView>, p: PlannedFileView)
    ensures
        execute::copy_bytes(Seq::empty()) == 0,
        execute::copy_bytes(items.push(p)) == execute::copy_bytes(items) + if p.action is Copy {
            p.source_size as int
        } else {
            0int
        },
{
    assert(items.push(p).drop_last() =~= items);
}

/// A file that was decided when the plan was made has failed where it was planned as an error,
/// and was skipped otherwise, for the reason that the plan gives.
pub proof fn law_decided_files_end_as_planned(p: PlannedFileView, r: Seq<char>)
    requires
        p.reason == Some(r),
    ensures
        p.action is Error ==> execute::decided_outcome(p) == (OutcomeView::Failed { error: r }),
        !(p.action is Error) ==> execute::decided_outcome(p) == (OutcomeView::Skipped { reason: r }),
{
}

/// The rows that are decided are those that are not to be copied, in order.
pub proof fn law_decided_rows_are_not_copies(items: Seq<PlannedFileView>, p: PlannedFileView)
    ensures
        execute::decided_rows(Seq::empty()).len() == 0,
        execute::decided_rows(items.push(p)) == if p.action is Copy {
            execute::decided_rows(items)
        } else {
            execute::decided_rows(items).push(p)
        },
{
    assert(items.push(p).drop_last() =~= items);
}

// ---------------------------------------------------------------------------
// Copying
// ---------------------------------------------------------------------------

/// The staging directories that are swept are those below the two roots.
pub proof fn law_staging_lies_below_the_roots(s: StagingState, cfg: EngineConfig)
    requires
        s.cfg == cfg@,
    ensures
        s.images_staging() == path::join(cfg.images_root@, ".imagesync-staging"@),
        s.videos_staging() == path::join(cfg.videos_root@, ".imagesync-staging"@),
{
}

/// A run announces every decided file and reports it as it was planned, one after the other;
/// then it starts ExifTool.
pub proof fn law_runs_report_decided_files(s: StagingState, i: int)
    requires
        s.rows.len() <= usize::MAX,
        0 <= i < s.rows.len(),
    ensures
        s.stage is SweepVideos ==> s.next(StagingInput::Removed, false) == (
            s.at(StagingStage::Announcing(0)),
            StagingActionView::Emit(EventView::FileStarted { file: s.rows[0] }),
        ),
        s.stage == StagingStage::Announcing(i as usize) ==> s.next(StagingInput::Sent(true), false)
            == (
            s.at(StagingStage::Reporting(i as usize)),
            StagingActionView::Finish {
                file: s.rows[i],
                outcome: execute::decided_outcome(s.rows[i]),
            },
        ),
        s.stage == StagingStage::Reporting(i as usize) && i + 1 < s.rows.len() ==> s.next(
            StagingInput::Finished,
            false,
        ) == (
            s.at(StagingStage::Announcing((i + 1) as usize)),
            StagingActionView::Emit(EventView::FileStarted { file: s.rows[i + 1] }),
        ),
        s.stage == StagingStage::Reporting(i as usize) && i + 1 == s.rows.len() ==> s.next(
            StagingInput::Finished,
            false,
        ) == (s.at(StagingStage::Spawning), StagingActionView::SpawnExif),
{
}

/// A run works with ExifTool where it can be started and without it, after a warning, where it
/// cannot; each unit waits for a free worker, and after the last one all workers are waited for.
pub proof fn law_runs_hand_out_every_unit(s: StagingState, k: int, m: Seq<char>)
    requires
        s.units.len() <= usize::MAX,
        0 <= k < s.units.len(),
    ensures
        s.stage is Spawning ==> s.next(StagingInput::Exif(Ok(())), false) == (
            StagingState { has_exif: true, stage: StagingStage::Acquiring(0), ..s },
            StagingActionView::AcquireSlot,
        ),
        s.stage is Spawning ==> s.next(StagingInput::Exif(Err(m)), false).0.has_exif == s.has_exif
            && (s.next(
            StagingInput::Exif(Err(m)),
            false,
        ).1 matches StagingActionView::Emit(EventView::Warning { kind, message, file }) && kind
            == WarningKind::ExifToolUnavailable && text::holds(message, m) && file is None),
        s.stage is ExifWarned ==> s.next(StagingInput::Sent(true), false) == (
            s.at(StagingStage::Acquiring(0)),
            StagingActionView::AcquireSlot,
        ),
        s.stage == StagingStage::Acquiring(k as usize) ==> s.next(StagingInput::Slot(true), false)
            == (
            s.at(StagingStage::Launching(k as usize)),
            StagingActionView::StartUnit {
                unit: s.units[k],
                seq: k as u64,
                has_exif: s.has_exif,
            },
        ),
        s.stage == StagingStage::Launching(k as usize) && k + 1 < s.units.len() ==> s.next(
            StagingInput::UnitStarted,
            false,
        ) == (
            s.at(StagingStage::Acquiring((k + 1) as usize)),
            StagingActionView::AcquireSlot,
        ),
        s.stage == StagingStage::Launching(k as usize) && k + 1 == s.units.len() ==> s.next(
            StagingInput::UnitStarted,
            false,
        ) == (s.at(StagingStage::Joining), StagingActionView::JoinWorkers),
{
    let front = "exiftool unavailable, dating by file mtime only: "@;
    let message = front + m;
    assert(message.subrange(front.len() as int, (front.len() + m.len()) as int) =~= m);
    assert(text::stands_at(message, m, front.len() as int));
}

/// A run ends by stopping ExifTool, if it was started, and sweeping the staging directories; one
/// whose worker broke down fails, any other tells what was counted, and whether it was
/// cancelled.
pub proof fn law_runs_end_with_the_counts(
    s: StagingState,
    m: Option<Seq<char>>,
    c: Counters,
    cancelled: bool,
)
    ensures
        s.stage is Joining && s.has_exif ==> s.next(StagingInput::Joined(m), cancelled) == (
            StagingState { worker_error: m, stage: StagingStage::Stopping, ..s },
            StagingActionView::ShutdownExif,
        ),
        s.stage is Joining && !s.has_exif ==> s.next(StagingInput::Joined(m), cancelled) == (
            StagingState { worker_error: m, stage: StagingStage::EndImages, ..s },
            StagingActionView::RemoveDir { path: s.images_staging() },
        ),
        s.stage is EndVideos && s.worker_error is Some ==> s.next(
            StagingInput::Removed,
            cancelled,
        ).1 is Fail,
        s.stage is EndVideos && s.worker_error is None ==> s.next(StagingInput::Removed, cancelled)
            == (s.at(StagingStage::Totalling), StagingActionView::Summarize),
        s.stage is Totalling ==> s.next(StagingInput::Totals(c), cancelled).1
            == StagingActionView::Emit(
            EventView::ExecutionFinished {
                summary: SyncSummary {
                    total: s.total,
                    copied: c.copied,
                    skipped: c.skipped,
                    failed: c.failed,
                    cancelled,
                },
            },
        ),
{
}

/// A cancelled run starts no further unit and no further file, and still cleans up.
pub proof fn law_cancelled_runs_clean_up(s: StagingState, i: usize)
    ensures
        s.stage is SweepVideos ==> s.next(StagingInput::Removed, true).1 == (
        StagingActionView::RemoveDir { path: s.images_staging() }),
        s.stage == StagingStage::Reporting(i) ==> s.next(StagingInput::Finished, true).1 == (
        StagingActionView::RemoveDir { path: s.images_staging() }),
        s.stage == StagingStage::Acquiring(i) ==> s.next(StagingInput::Slot(true), true).1
            is JoinWorkers,
        s.stage == StagingStage::Launching(i) ==> s.next(StagingInput::UnitStarted, true).1
            is JoinWorkers,
{
}

// ---------------------------------------------------------------------------
// Dry runs
// ---------------------------------------------------------------------------

/// A dry run asks the source for every file, in order, and ExifTool about them, in order; what
/// ExifTool answers for a file dates that file, together with its own time of modification.
pub proof fn law_dry_runs_date_every_file(
    s: DryState,
    i: int,
    p: NativeView,
    metas: Seq<MetadataView>,
    k: int,
)
    requires
        0 <= i < s.files.len(),
        0 <= k < metas.len(),
    ensures
        s.stage == DryStage::Resolving(i) ==> ({
            let (n, a) = s.next(DryInput::SourcePath(Ok(p)), false);
            &&& n.paths == s.paths.push(p.text)
            &&& i + 1 < s.files.len() ==> a == (DryActionView::ResolveSource {
                file: s.files[i + 1].0,
            })
            &&& i + 1 == s.files.len() ==> a is SpawnExif
        }),
        s.stage is Reading ==> ({
            let (n, a) = s.next(DryInput::Batch(Ok(metas)), false);
            &&& n.dates.len() == s.dates.len() + metas.len()
            &&& n.dates.take(s.dates.len() as int) == s.dates
            &&& n.dates[s.dates.len() + k] == metadata::resolved(
                s.files[s.dates.len() + k].0.mtime,
                metas[k],
            )
        }),
{
    if s.stage is Reading {
        let n = s.next(DryInput::Batch(Ok(metas)), false).0;
        assert(n.dates.take(s.dates.len() as int) =~= s.dates);
    }
}

/// A dry run shows what an import would do: a file that would be copied is reported as copied,
/// with its size, and any other as the plan with dates decided. It never fails for a file.
pub proof fn law_dry_runs_show_what_would_happen(s: DryState, i: int)
    requires
        0 <= i < s.items.len(),
        s.stage == DryStage::Showing(i),
    ensures
        ({
            let (n, a) = s.next(DryInput::Sent(true), false);
            &&& a matches DryActionView::Finish { file, outcome } && file == s.items[i] && outcome
                == if s.items[i].action is Copy {
                OutcomeView::Copied { bytes: s.items[i].source_size }
            } else {
                execute::decided_outcome(s.items[i])
            }
            &&& n.next(DryInput::Finished, false).1 == if i + 1 < s.items.len() {
                DryActionView::Emit(EventView::FileStarted { file: s.items[i + 1] })
            } else {
                DryActionView::Summarize
            }
        }),
{
}

/// What a dry run shows is the plan with dates, by what the destination directories hold; where
/// a layout cannot be used, the run fails with that.
pub proof fn law_dry_runs_plan_with_dates(s: DryState, c: dedupe::Listings)
    requires
        s.stage is Listing,
    ensures
        ({
            let rows = plan::full_rows(s.cfg, c, s.scanned());
            let (n, a) = s.next(DryInput::Listings(c), false);
            &&& (forall|i: int| 0 <= i < rows.len() ==> #[trigger] rows[i] is Ok) ==> n.items.len()
                == rows.len() && forall|i: int|
                0 <= i < rows.len() ==> #[trigger] n.items[i] == rows[i]->Ok_0
            &&& forall|k: int|
                0 <= k < rows.len() && (#[trigger] rows[k]) is Err && (forall|i: int|
                    0 <= i < k ==> #[trigger] rows[i] is Ok) ==> a == DryActionView::Fail(
                    rows[k]->Err_0,
                )
        }),
{
    let rows = plan::full_rows(s.cfg, c, s.scanned());
    plan::lemma_first_error(rows);
    let f = plan::first_error(rows);
    if forall|i: int| 0 <= i < rows.len() ==> #[trigger] rows[i] is Ok {
        if f < rows.len() {
            assert(rows[f] is Ok);
        }
    }
    assert forall|k: int|
        0 <= k < rows.len() && (#[trigger] rows[k]) is Err && (forall|i: int|
            0 <= i < k ==> #[trigger] rows[i] is Ok) implies f == k by {
        if f < k {
            assert(rows[f] is Ok);
        }
        if k < f {
            assert(rows[k] is Ok);
        }
    }
}

// ---------------------------------------------------------------------------
// Errors
// ---------------------------------------------------------------------------

/// Failures are told by what they are about: the configuration, a destination, the source,
/// ExifTool, the system, a cancellation, or the program itself.
pub proof fn law_failures_are_told_by_kind(e: ErrorView)
    ensures
        error_kind(e) is Cancelled <==> e is Cancelled,
        error_kind(e) is Configuration <==> e is Config || e is Template || e is Profile || e
            is TomlDe || e is TomlSer,
        error_kind(e) is Destination <==> e is DestRootMissing || e is DestRootNotDir || e
            is DestinationLocked,
        error_kind(e) is Source <==> e is Source,
        error_kind(e) is ExifTool <==> e is ExiftoolMissing || e is Exiftool || e is Metadata,
        error_kind(e) is Io <==> e is Io || e is IoBare,
        error_kind(e) is Internal <==> e is Json || e is Internal,
{
}

// ---------------------------------------------------------------------------
// Beginnings and ends
// ---------------------------------------------------------------------------

/// A run begins with the units of its plan, counts all of its rows, and has nothing done; a dry
/// run begins with the files of the units.
pub proof fn law_runs_begin_with_the_plan(cfg: EngineConfig, source: Seq<char>, plan: PlanView)
    requires
        plan.items.len() <= u64::MAX,
    ensures
        ({
            let s = staging::fresh(cfg@, plan);
            &&& s.stage is Ready && s.cfg == cfg@
            &&& s.units == plan.units && s.total == plan.items.len()
            &&& !s.has_exif && s.worker_error is None
        }),
        ({
            let s = dry::fresh(cfg@, source, plan);
            &&& s.stage is Ready && s.cfg == cfg@ && s.source == source
            &&& s.total == plan.items.len() && s.files == dry::flat(plan.units)
            &&& s.paths.len() == 0 && s.dates.len() == 0 && s.items.len() == 0
            &&& s.rows == staging::fresh(cfg@, plan).rows
        }),
{
}

/// The files of a unit are taken media file first, then its sidecars in order, behind those of
/// the units before it.
pub proof fn law_units_are_taken_apart_in_order(us: Seq<UnitView>, u: UnitView, k: int)
    requires
        0 <= k < u.sidecars.len(),
    ensures
        dry::flat(Seq::empty()).len() == 0,
        ({
            let n = dry::flat(us).len() as int;
            let all = dry::flat(us.push(u));
            &&& all.len() == n + 1 + u.sidecars.len()
            &&& all.take(n) == dry::flat(us)
            &&& all[n] == (u.parent, u.parent_kind)
            &&& all[n + 1 + k] == (u.sidecars[k], MediaKind::Sidecar)
        }),
{
    assert(us.push(u).drop_last() =~= us);
    assert(dry::flat(us.push(u)).take(dry::flat(us).len() as int) =~= dry::flat(us));
}

/// Both staging directories are removed before the first copy and after the last, and a run
/// whose worker broke down fails with what is known of it.
pub proof fn law_staging_is_removed_before_and_after(s: StagingState, m: Seq<char>)
    ensures
        s.stage is Ready ==> s.next(StagingInput::Start, false).1 == (
        StagingActionView::RemoveDir { path: path::join(s.cfg.images_root, ".imagesync-staging"@) })
            && s.next(StagingInput::Start, false).0.stage is SweepImages,
        s.stage is SweepImages ==> s.next(StagingInput::Removed, false).1 == (
        StagingActionView::RemoveDir { path: path::join(s.cfg.videos_root, ".imagesync-staging"@) })
            && s.next(StagingInput::Removed, false).0.stage is SweepVideos,
        s.stage is Joining && !s.has_exif ==> s.next(StagingInput::Joined(None), false).1 == (
        StagingActionView::RemoveDir { path: path::join(s.cfg.images_root, ".imagesync-staging"@) })
            && s.next(StagingInput::Joined(None), false).0.stage is EndImages,
        s.stage is Joining && s.has_exif ==> s.next(StagingInput::Joined(None), false).1
            is ShutdownExif,
        s.stage is Joining ==> s.next(StagingInput::Joined(Some(m)), false).0.worker_error == Some(
            m,
        ),
        s.stage is Stopping ==> s.next(StagingInput::ShutDown, false).0.stage is EndImages,
        s.stage is EndImages ==> s.next(StagingInput::Removed, false).1 == (
        StagingActionView::RemoveDir { path: path::join(s.cfg.videos_root, ".imagesync-staging"@) })
            && s.next(StagingInput::Removed, false).0.stage is EndVideos,
        s.stage is EndVideos && s.worker_error is None ==> s.next(StagingInput::Removed, false).1
            is Summarize,
        s.stage is EndVideos && s.worker_error == Some(m) ==> s.next(StagingInput::Removed, false).1
            == StagingActionView::Fail(
            ErrorView::Internal("staging worker terminated unexpectedly: "@ + m),
        ),
{
}

/// ExifTool is asked about the files in turn, as many at once as the settings say, but at least
/// one; after each batch it is told how many files of all are dated. Without ExifTool a dry run
/// fails.
pub proof fn law_dry_runs_ask_in_batches(s: DryState, metas: Seq<MetadataView>, e: ErrorView, i: int)
    requires
        s.dates.len() < s.paths.len() <= s.files.len() <= u64::MAX,
        s.dates.len() + metas.len() <= s.files.len(),
        0 <= i,
        s.dates.len() + i < s.paths.len(),
    ensures
        s.stage is Spawning ==> ({
            let (n, a) = s.next(DryInput::Exif(Ok(())), false);
            let size = s.cfg.performance.metadata_batch_size;
            &&& n.stage is Reading
            &&& a matches DryActionView::ReadBatch { paths } && 1 <= paths.len() && (size >= 1
                ==> paths.len() <= size) && (size == 0 ==> paths.len() == 1) && (paths.len() < size
                ==> s.dates.len() + paths.len() == s.paths.len()) && (i < paths.len() ==> paths[i]
                == s.paths[s.dates.len() + i])
        }),
        s.stage is Spawning ==> s.next(DryInput::Exif(Err(e)), false).1 == DryActionView::Fail(e),
        s.stage is Reading ==> s.next(DryInput::Batch(Ok(metas)), false).1 == DryActionView::Emit(
            EventView::MetadataProgress {
                done: (s.dates.len() + metas.len()) as u64,
                total: s.files.len() as u64,
            },
        ),
        s.stage is Reading ==> s.next(DryInput::Batch(Err(e)), false).1 is ShutdownExif && s.next(
            DryInput::Batch(Err(e)),
            false,
        ).0.next(DryInput::ShutDown, false).1 == DryActionView::Fail(e),
{
}

/// A dry run ends with the counts of what it showed, as they are.
pub proof fn law_dry_runs_end_with_the_counts(s: DryState, c: Counters, cancelled: bool)
    requires
        s.stage is Totalling,
    ensures
        ({
            let (n, a) = s.next(DryInput::Totals(c), cancelled);
            &&& a matches DryActionView::Emit(EventView::ExecutionFinished { summary })
                && summary.total == s.total && summary.copied == c.copied && summary.skipped
                == c.skipped && summary.failed == c.failed && summary.cancelled == cancelled
                && n.next(DryInput::Sent(true), false).1 == DryActionView::Complete(summary)
        }),
{
}

/// A root that another import holds is told by its path, and a lock that cannot be taken by the
/// path of its file below the root.
pub proof fn law_locks_fail_by_their_root(root: Seq<char>, m: String)
    ensures
        execute::lock_fault(root, LockResult::Locked) is None,
        execute::lock_fault(root, LockResult::WouldBlock) == Some(
            ErrorView::DestinationLocked { path: root },
        ),
        execute::lock_fault(root, LockResult::Failed(m)) == Some(
            ErrorView::Io { path: path::join(root, ".imagesync.lock"@), source: m@ },
        ),
{
}

/// Nothing is done below a root that is refused, and the first one that is refused is told;
/// every root to lock is locked in turn, and the run fails at the first that cannot be.
pub proof fn law_setups_check_and_lock_the_roots(
    s: SetupState,
    images: RootState,
    videos: RootState,
    k: int,
    r: LockResult,
)
    requires
        0 <= k < s.roots().len(),
        s.roots().len() < usize::MAX,
    ensures
        s.stage is Ready ==> s.next(SetupEvent::Start, false).1 == (SetupActionView::CheckRoots {
            images: s.cfg.images_root,
            videos: s.cfg.videos_root,
        }),
        s.stage is Checking && !(images is Directory) ==> (s.next(
            SetupEvent::Roots(images, videos),
            false,
        ).1 matches SetupActionView::Fail(e) && Some(e) == roots::root_fault(
            s.cfg.images_root,
            "images_root"@,
            images,
        )),
        s.stage is Checking && images is Directory && !(videos is Directory) ==> (s.next(
            SetupEvent::Roots(images, videos),
            false,
        ).1 matches SetupActionView::Fail(e) && Some(e) == roots::root_fault(
            s.cfg.videos_root,
            "videos_root"@,
            videos,
        )),
        s.stage is Checking && images is Directory && videos is Directory && !s.dry_run ==> s.next(
            SetupEvent::Roots(images, videos),
            false,
        ).1 == (SetupActionView::Lock { root: s.roots()[0] }),
        s.stage == SetupStage::Locking(k as usize) && r is Locked && k + 1 < s.roots().len()
            ==> s.next(SetupEvent::Lock(r), false).1 == (SetupActionView::Lock {
            root: s.roots()[k + 1],
        }),
        s.stage == SetupStage::Locking(k as usize) && !(r is Locked) ==> (s.next(
            SetupEvent::Lock(r),
            false,
        ).1 matches SetupActionView::Fail(e) && Some(e) == execute::lock_fault(s.roots()[k], r)),
        s.stage == SetupStage::Locking(k as usize) && r is Locked && k + 1 == s.roots().len()
            ==> s.next(SetupEvent::Lock(r), false).1 is Emit,
{
}

} // verus!
