//! What the outcomes of a whole run come to.

use vstd::prelude::*;
use vstd::multiset::Multiset;
use crate::classify::MediaKind;
use crate::config::EngineConfigView;
use crate::events::{EventView, OutcomeView, PlannedAction, PlannedFileView, SyncSummary};
use crate::exiftool;
use crate::index::{self, IndexedFileView};
use crate::metadata;
use crate::plan::{self, PlanView, Sorting, UnitView};
use crate::profiles::ProfileView;
use crate::source::SourceFileView;
use super::execute;
use super::scan::ScanState;
use super::staging;
use super::staging::{StagingActionView, StagingInput, StagingStage, StagingState};
use super::Counters;
use super::unit;
use super::unit::{ActionView, InputView, StageView, StagedView, UnitState};
use super::unit_laws;

verus! {

/// A file of the source and its outcome.
pub struct Report {
    pub file: Seq<char>,
    pub outcome: OutcomeView,
}

/// The files of reports, each as often as it is reported.
pub open spec fn reported_files(rs: Seq<Report>) -> Multiset<Seq<char>>
    decreases rs.len(),
{
    if rs.len() == 0 {
        Multiset::empty()
    } else {
        reported_files(rs.drop_last()).insert(rs.last().file)
    }
}

pub proof fn lemma_reported_concat(a: Seq<Report>, b: Seq<Report>)
    ensures
        reported_files(a + b) == reported_files(a).add(reported_files(b)),
    decreases b.len(),
{
    if b.len() == 0 {
        assert(a + b =~= a);
        assert(reported_files(a).add(reported_files(b)) =~= reported_files(a));
    } else {
        lemma_reported_concat(a, b.drop_last());
        assert((a + b).drop_last() =~= a + b.drop_last());
        assert(reported_files(a + b) =~= reported_files(a).add(reported_files(b)));
    }
}

// ---------------------------------------------------------------------------
// The work on one unit
// ---------------------------------------------------------------------------

/// What the work on a unit was told, step by step, each time with whether the run was to
/// stop.
pub type UnitTrace = Seq<(InputView, bool)>;

/// The state after some steps.
#[verifier::opaque]
pub open spec fn unit_after(s: UnitState, t: UnitTrace) -> UnitState
    decreases t.len(),
{
    if t.len() == 0 {
        s
    } else {
        unit_after(s, t.drop_last()).next(t.last().0, t.last().1).0
    }
}

/// The outcome that an action reports, if any.
pub open spec fn unit_outcome(a: ActionView) -> Seq<Report> {
    match a {
        ActionView::Finish { file, outcome } => seq![
            Report { file: file.source_rel_path, outcome },
        ],
        _ => Seq::empty(),
    }
}

/// The outcomes that were reported in some steps.
#[verifier::opaque]
pub open spec fn unit_outcomes(s: UnitState, t: UnitTrace) -> Seq<Report>
    decreases t.len(),
{
    if t.len() == 0 {
        Seq::empty()
    } else {
        unit_outcomes(s, t.drop_last()) + unit_outcome(
            unit_after(s, t.drop_last()).next(t.last().0, t.last().1).1,
        )
    }
}

/// Nobody cancelled the run, its listener stayed, and every step was told what it had asked
/// for.
#[verifier::opaque]
pub open spec fn unit_undisturbed(s: UnitState, t: UnitTrace) -> bool
    decreases t.len(),
{
    t.len() == 0 || {
        &&& unit_undisturbed(s, t.drop_last())
        &&& !t.last().1
        &&& unit_laws::undisturbed(unit_after(s, t.drop_last()), t.last().0)
    }
}

proof fn lemma_next_copy_wf(s: UnitState, i: int, cancelled: bool)
    requires
        0 <= i,
        s.staged.len() <= i,
        s.staged.len() <= s.count(),
        s.staged.len() > 0 || i == 0,
        s.date is None,
    ensures
        s.next_copy(i, cancelled).0.wf(),
{
}

proof fn lemma_settle_wf(s: UnitState, j: int, cancelled: bool)
    requires
        s.is_staged(),
        0 <= j,
    ensures
        s.settle(j, cancelled).0.wf(),
        unit_laws::reported(s.settle(j, cancelled).0) >= s.count() - s.staged.len() + if j
            <= s.staged.len() {
            j
        } else {
            s.staged.len() as int
        },
        unit_outcome(s.settle(j, cancelled).1).len() == 0,
        unit_laws::reported(s.settle(j, cancelled).0) <= s.count(),
        s.settle(j, cancelled).0.unit == s.unit,
{
}

proof fn lemma_with_metadata_wf(s: UnitState, meta: exiftool::MetadataView, cancelled: bool)
    requires
        s.is_staged(),
    ensures
        s.with_metadata(meta, cancelled).0.wf(),
        s.count() - s.staged.len() <= unit_laws::reported(s.with_metadata(meta, cancelled).0)
            <= s.count(),
        unit_outcome(s.with_metadata(meta, cancelled).1).len() == 0,
        s.with_metadata(meta, cancelled).0.unit == s.unit,
{
    let dated = UnitState { date: metadata::resolved(s.staged[0].mtime, meta), ..s };
    lemma_settle_wf(dated, 0, cancelled);
}

/// A step that reports at most one outcome, and none beyond the files of the unit.
spec fn reports_in_bounds(s: UnitState, step: (UnitState, ActionView)) -> bool {
    &&& step.0.wf()
    &&& step.0.unit == s.unit
    &&& unit_laws::reported(step.0) >= unit_laws::reported(s) + unit_outcome(step.1).len()
    &&& unit_laws::reported(step.0) <= s.count()
}

proof fn lemma_copying_step(s: UnitState, e: InputView, cancelled: bool)
    requires
        s.wf(),
        s.stage is Ready || s.stage is Started || s.stage is Announced || s.stage is Resolving
            || s.stage is Copying || s.stage is CopyFailed || s.stage is Orphaned
            || s.stage is OrphanFailed,
    ensures
        reports_in_bounds(s, s.next(e, cancelled)),
{
    if let StageView::Copying(i) = s.stage {
        if let InputView::Copied(Ok(_)) = e {
            let more = UnitState {
                staged: s.staged.push(
                    StagedView {
                        staged_path: s.staging_path(i),
                        rel_path: s.file(i).rel_path,
                        size: s.file(i).size,
                        kind: s.kind(i),
                        mtime: s.file(i).mtime,
                    },
                ),
                ..s
            };
            lemma_next_copy_wf(more, i + 1, cancelled);
        }
    }
}

proof fn lemma_dating_step(s: UnitState, e: InputView, cancelled: bool)
    requires
        s.wf(),
        s.stage is Reading || s.stage is AwaitMetadata || s.stage is Warned
            || s.stage is FallbackWarned,
    ensures
        reports_in_bounds(s, s.next(e, cancelled)),
{
    if s.stage is FallbackWarned {
        lemma_settle_wf(s, 0, cancelled);
    } else {
        lemma_with_metadata_wf(s, exiftool::no_metadata(), cancelled);
        if let InputView::Metadata(Ok(meta)) = e {
            lemma_with_metadata_wf(s, meta, cancelled);
        }
    }
}

proof fn lemma_placing_step(s: UnitState, e: InputView, cancelled: bool)
    requires
        s.wf(),
        s.stage is Placing || s.stage is Reserving || s.stage is Finalizing || s.stage is Moving
            || s.stage is Discarding || s.stage is Settled || s.stage is Cleaning
            || s.stage is Over,
    ensures
        reports_in_bounds(s, s.next(e, cancelled)),
{
    match s.stage {
        StageView::Placing(j) => {
            lemma_settle_wf(s, j + 1, cancelled);
        },
        StageView::Finalizing(j) => {
            lemma_settle_wf(s, j + 1, cancelled);
        },
        StageView::Settled(j) => {
            lemma_settle_wf(s, j + 1, cancelled);
        },
        _ => {},
    }
}

proof fn lemma_unit_step(s: UnitState, e: InputView, cancelled: bool)
    requires
        s.wf(),
    ensures
        reports_in_bounds(s, s.next(e, cancelled)),
{
    match s.stage {
        StageView::Reading => lemma_dating_step(s, e, cancelled),
        StageView::AwaitMetadata => lemma_dating_step(s, e, cancelled),
        StageView::Warned => lemma_dating_step(s, e, cancelled),
        StageView::FallbackWarned => lemma_dating_step(s, e, cancelled),
        StageView::Placing(_) => lemma_placing_step(s, e, cancelled),
        StageView::Reserving(_) => lemma_placing_step(s, e, cancelled),
        StageView::Finalizing(_) => lemma_placing_step(s, e, cancelled),
        StageView::Moving(_) => lemma_placing_step(s, e, cancelled),
        StageView::Discarding(_, _, _) => lemma_placing_step(s, e, cancelled),
        StageView::Settled(_) => lemma_placing_step(s, e, cancelled),
        StageView::Cleaning => lemma_placing_step(s, e, cancelled),
        StageView::Over => lemma_placing_step(s, e, cancelled),
        _ => lemma_copying_step(s, e, cancelled),
    }
}

pub proof fn lemma_unit_trace(s: UnitState, t: UnitTrace)
    requires
        s.wf(),
        s.stage is Ready,
    ensures
        unit_after(s, t).wf(),
        unit_after(s, t).unit == s.unit,
        unit_outcomes(s, t).len() <= unit_laws::reported(unit_after(s, t)) <= s.count(),
        unit_undisturbed(s, t) ==> unit_outcomes(s, t).len() == unit_laws::reported(
            unit_after(s, t),
        ),
    decreases t.len(),
{
    reveal(unit_after);
    reveal(unit_outcomes);
    reveal(unit_undisturbed);
    if t.len() > 0 {
        let before = unit_after(s, t.drop_last());
        lemma_unit_trace(s, t.drop_last());
        lemma_unit_step(before, t.last().0, t.last().1);
        if unit_undisturbed(s, t) {
            unit_laws::law_every_file_gets_one_outcome(before, t.last().0);
        }
    }
}

/// The files of a unit from one on; the media file is the first.
pub open spec fn files_from(u: UnitView, i: int) -> Multiset<Seq<char>>
    decreases u.sidecars.len() + 1 - i,
{
    if i < 0 || i > u.sidecars.len() {
        Multiset::empty()
    } else if i == 0 {
        files_from(u, 1).insert(u.parent.rel_path)
    } else {
        files_from(u, i + 1).insert(u.sidecars[i - 1].rel_path)
    }
}

/// The staged files from one on.
spec fn staged_from(staged: Seq<StagedView>, j: int) -> Multiset<Seq<char>>
    decreases staged.len() - j,
{
    if j < 0 || j >= staged.len() {
        Multiset::empty()
    } else {
        staged_from(staged, j + 1).insert(staged[j].rel_path)
    }
}

/// The files that have no outcome yet.
spec fn pending(s: UnitState) -> Multiset<Seq<char>> {
    match s.stage {
        StageView::Ready => files_from(s.unit, 0),
        StageView::Started(i) => staged_from(s.staged, 0).add(files_from(s.unit, i)),
        StageView::Announced(i) => staged_from(s.staged, 0).add(files_from(s.unit, i)),
        StageView::Resolving(i) => staged_from(s.staged, 0).add(files_from(s.unit, i)),
        StageView::Copying(i) => staged_from(s.staged, 0).add(files_from(s.unit, i)),
        StageView::CopyFailed(i) => staged_from(s.staged, 0).add(files_from(s.unit, i + 1)),
        StageView::Orphaned(k) => files_from(s.unit, k + 1),
        StageView::OrphanFailed(k) => files_from(s.unit, k + 2),
        StageView::Reading => staged_from(s.staged, 0),
        StageView::AwaitMetadata => staged_from(s.staged, 0),
        StageView::Warned => staged_from(s.staged, 0),
        StageView::FallbackWarned => staged_from(s.staged, 0),
        StageView::Placing(j) => staged_from(s.staged, j),
        StageView::Reserving(j) => staged_from(s.staged, j),
        StageView::Finalizing(j) => staged_from(s.staged, j),
        StageView::Moving(j) => staged_from(s.staged, j),
        StageView::Discarding(j, _, _) => staged_from(s.staged, j),
        StageView::Settled(j) => staged_from(s.staged, j + 1),
        StageView::Cleaning => Multiset::empty(),
        StageView::Over => Multiset::empty(),
    }
}

/// The outcome that waits for a removal is that of the removed file.
spec fn discards_its_own(s: UnitState) -> bool {
    s.stage matches StageView::Discarding(j, file, _) ==> file.source_rel_path
        == s.staged[j].rel_path
}

proof fn lemma_staged_push(staged: Seq<StagedView>, x: StagedView, j: int)
    requires
        0 <= j <= staged.len(),
    ensures
        staged_from(staged.push(x), j) == staged_from(staged, j).insert(x.rel_path),
    decreases staged.len() - j,
{
    if j < staged.len() {
        lemma_staged_push(staged, x, j + 1);
        assert(staged_from(staged.push(x), j) =~= staged_from(staged, j).insert(x.rel_path));
    } else {
        assert(staged_from(staged.push(x), j + 1) =~= Multiset::empty());
    }
}

/// A step that takes the file that it reports, and no other, from the files without an
/// outcome.
spec fn takes_its_own(s: UnitState, step: (UnitState, ActionView)) -> bool {
    &&& discards_its_own(step.0)
    &&& pending(s) == pending(step.0).add(reported_files(unit_outcome(step.1)))
}

proof fn lemma_one_report(file: Seq<char>, outcome: OutcomeView)
    ensures
        reported_files(Seq::<Report>::empty()) == Multiset::<Seq<char>>::empty(),
        reported_files(seq![Report { file, outcome }]) == Multiset::empty().insert(file),
{
    let one = seq![Report { file, outcome }];
    assert(one.drop_last() =~= Seq::<Report>::empty());
    assert(reported_files(one.drop_last()) =~= Multiset::empty());
}

proof fn lemma_takes_nothing(s: UnitState, step: (UnitState, ActionView))
    requires
        !(step.1 is Finish),
        pending(s) == pending(step.0),
        discards_its_own(step.0),
    ensures
        takes_its_own(s, step),
{
    lemma_one_report(Seq::empty(), OutcomeView::Copied { bytes: 0 });
    assert(pending(s) =~= pending(step.0).add(Multiset::empty()));
}

proof fn lemma_next_copy_pending(s: UnitState, i: int)
    requires
        0 <= i,
    ensures
        pending(s.next_copy(i, false).0) == staged_from(s.staged, 0).add(files_from(s.unit, i)),
        discards_its_own(s.next_copy(i, false).0),
        !(s.next_copy(i, false).1 is Finish),
{
    assert(pending(s.next_copy(i, false).0) =~= staged_from(s.staged, 0).add(files_from(s.unit, i)));
}

proof fn lemma_settle_pending(s: UnitState, j: int)
    requires
        0 <= j,
    ensures
        pending(s.settle(j, false).0) == staged_from(s.staged, j),
        discards_its_own(s.settle(j, false).0),
        !(s.settle(j, false).1 is Finish),
{
}

proof fn lemma_with_metadata_pending(s: UnitState, meta: exiftool::MetadataView)
    ensures
        pending(s.with_metadata(meta, false).0) == staged_from(s.staged, 0),
        discards_its_own(s.with_metadata(meta, false).0),
        !(s.with_metadata(meta, false).1 is Finish),
{
    let dated = UnitState { date: metadata::resolved(s.staged[0].mtime, meta), ..s };
    lemma_settle_pending(dated, 0);
}

proof fn lemma_copying_takes(s: UnitState, e: InputView)
    requires
        s.wf(),
        unit_laws::undisturbed(s, e),
        s.stage is Ready || s.stage is Started || s.stage is Announced || s.stage is Resolving
            || s.stage is Copying,
    ensures
        takes_its_own(s, s.next(e, false)),
{
    let step = s.next(e, false);
    match s.stage {
        StageView::Ready => {
            lemma_next_copy_pending(s, 0);
            assert(pending(s) =~= staged_from(s.staged, 0).add(files_from(s.unit, 0)));
            lemma_takes_nothing(s, step);
        },
        StageView::Resolving(i) => {
            if let InputView::SourcePath(Err(m)) = e {
                lemma_one_report(s.file(i).rel_path, OutcomeView::Failed { error: m });
                assert(pending(s) =~= pending(step.0).add(reported_files(unit_outcome(step.1))));
            } else {
                lemma_takes_nothing(s, step);
            }
        },
        StageView::Copying(i) => {
            match e {
                InputView::Copied(Err(m)) => {
                    lemma_one_report(s.file(i).rel_path, OutcomeView::Failed { error: m });
                    assert(pending(s) =~= pending(step.0).add(
                        reported_files(unit_outcome(step.1)),
                    ));
                },
                _ => {
                    let x = StagedView {
                        staged_path: s.staging_path(i),
                        rel_path: s.file(i).rel_path,
                        size: s.file(i).size,
                        kind: s.kind(i),
                        mtime: s.file(i).mtime,
                    };
                    let more = UnitState { staged: s.staged.push(x), ..s };
                    lemma_next_copy_pending(more, i + 1);
                    lemma_staged_push(s.staged, x, 0);
                    assert(pending(s) =~= pending(step.0));
                    lemma_takes_nothing(s, step);
                },
            }
        },
        StageView::Started(i) => {
            lemma_takes_nothing(s, step);
        },
        StageView::Announced(i) => {
            lemma_takes_nothing(s, step);
        },
        _ => {},
    }
}

proof fn lemma_losing_takes(s: UnitState, e: InputView)
    requires
        s.wf(),
        unit_laws::undisturbed(s, e),
        s.stage is CopyFailed || s.stage is Orphaned || s.stage is OrphanFailed,
    ensures
        takes_its_own(s, s.next(e, false)),
{
    let step = s.next(e, false);
    match s.stage {
        StageView::CopyFailed(i) => {
            if i == 0 {
                assert(staged_from(s.staged, 0) =~= Multiset::empty());
            } else {
                lemma_next_copy_pending(s, i + 1);
            }
            assert(pending(s) =~= pending(step.0));
            lemma_takes_nothing(s, step);
        },
        StageView::Orphaned(k) => {
            lemma_one_report(
                s.file(k + 1).rel_path,
                OutcomeView::Failed { error: "parent copy failed; sidecar not copied"@ },
            );
            assert(pending(s) =~= pending(step.0).add(reported_files(unit_outcome(step.1))));
        },
        StageView::OrphanFailed(k) => {
            assert(pending(s) =~= pending(step.0));
            lemma_takes_nothing(s, step);
        },
        _ => {},
    }
}

proof fn lemma_dating_takes(s: UnitState, e: InputView)
    requires
        s.wf(),
        unit_laws::undisturbed(s, e),
        s.stage is Reading || s.stage is AwaitMetadata || s.stage is Warned
            || s.stage is FallbackWarned || s.stage is Cleaning || s.stage is Over,
    ensures
        takes_its_own(s, s.next(e, false)),
{
    lemma_with_metadata_pending(s, exiftool::no_metadata());
    if let InputView::Metadata(Ok(meta)) = e {
        lemma_with_metadata_pending(s, meta);
    }
    lemma_settle_pending(s, 0);
    lemma_takes_nothing(s, s.next(e, false));
}

proof fn lemma_placing_takes(s: UnitState, e: InputView)
    requires
        s.wf(),
        unit_laws::undisturbed(s, e),
        discards_its_own(s),
        s.stage is Placing || s.stage is Reserving || s.stage is Finalizing || s.stage is Moving
            || s.stage is Discarding || s.stage is Settled,
    ensures
        takes_its_own(s, s.next(e, false)),
{
    let step = s.next(e, false);
    match s.stage {
        StageView::Moving(j) => {
            if let InputView::Moved(Ok(_)) = e {
                lemma_one_report(
                    s.staged[j].rel_path,
                    OutcomeView::Copied { bytes: s.staged[j].size },
                );
                assert(pending(s) =~= pending(step.0).add(reported_files(unit_outcome(step.1))));
            } else {
                lemma_takes_nothing(s, step);
            }
        },
        StageView::Discarding(j, file, outcome) => {
            lemma_one_report(file.source_rel_path, outcome);
            assert(pending(s) =~= pending(step.0).add(reported_files(unit_outcome(step.1))));
        },
        StageView::Settled(j) => {
            lemma_settle_pending(s, j + 1);
            lemma_takes_nothing(s, step);
        },
        _ => {
            lemma_takes_nothing(s, step);
        },
    }
}

proof fn lemma_takes(s: UnitState, e: InputView)
    requires
        s.wf(),
        unit_laws::undisturbed(s, e),
        discards_its_own(s),
    ensures
        takes_its_own(s, s.next(e, false)),
{
    match s.stage {
        StageView::CopyFailed(_) => lemma_losing_takes(s, e),
        StageView::Orphaned(_) => lemma_losing_takes(s, e),
        StageView::OrphanFailed(_) => lemma_losing_takes(s, e),
        StageView::Placing(_) => lemma_placing_takes(s, e),
        StageView::Reserving(_) => lemma_placing_takes(s, e),
        StageView::Finalizing(_) => lemma_placing_takes(s, e),
        StageView::Moving(_) => lemma_placing_takes(s, e),
        StageView::Discarding(_, _, _) => lemma_placing_takes(s, e),
        StageView::Settled(_) => lemma_placing_takes(s, e),
        StageView::Ready => lemma_copying_takes(s, e),
        StageView::Started(_) => lemma_copying_takes(s, e),
        StageView::Announced(_) => lemma_copying_takes(s, e),
        StageView::Resolving(_) => lemma_copying_takes(s, e),
        StageView::Copying(_) => lemma_copying_takes(s, e),
        _ => lemma_dating_takes(s, e),
    }
}

proof fn lemma_unit_files(s: UnitState, t: UnitTrace)
    requires
        s.wf(),
        s.stage is Ready,
        unit_undisturbed(s, t),
    ensures
        discards_its_own(unit_after(s, t)),
        reported_files(unit_outcomes(s, t)).add(pending(unit_after(s, t))) == files_from(s.unit, 0),
    decreases t.len(),
{
    reveal(unit_after);
    reveal(unit_outcomes);
    reveal(unit_undisturbed);
    if t.len() > 0 {
        let before = unit_after(s, t.drop_last());
        lemma_unit_files(s, t.drop_last());
        lemma_unit_trace(s, t.drop_last());
        lemma_takes(before, t.last().0);
        let step = before.next(t.last().0, t.last().1);
        lemma_reported_concat(unit_outcomes(s, t.drop_last()), unit_outcome(step.1));
        assert(reported_files(unit_outcomes(s, t)).add(pending(step.0)) =~= reported_files(
            unit_outcomes(s, t.drop_last()),
        ).add(pending(before)));
    } else {
        assert(reported_files(unit_outcomes(s, t)).add(pending(s)) =~= files_from(s.unit, 0));
    }
}

/// However the work on a unit goes, it reports no more outcomes than the unit has files;
/// and work that nobody disturbs has reported exactly one for each of its files, and none
/// for another file, when it is over.
pub proof fn law_unit_reports_each_file_once(
    cfg: EngineConfigView,
    source: Seq<char>,
    u: UnitView,
    seq: u64,
    has_exif: bool,
    t: UnitTrace,
)
    ensures
        ({
            let s = unit::fresh(cfg, source, u, seq, has_exif);
            &&& unit_outcomes(s, t).len() <= 1 + u.sidecars.len()
            &&& unit_undisturbed(s, t) && unit_after(s, t).stage is Over ==> unit_outcomes(
                s,
                t,
            ).len() == 1 + u.sidecars.len() && reported_files(unit_outcomes(s, t)) == files_from(s.unit, 0)
        }),
{
    let s = unit::fresh(cfg, source, u, seq, has_exif);
    lemma_unit_trace(s, t);
    if unit_undisturbed(s, t) && unit_after(s, t).stage is Over {
        lemma_unit_files(s, t);
        assert(reported_files(unit_outcomes(s, t)) =~= files_from(s.unit, 0));
    }
}

// ---------------------------------------------------------------------------
// The run around the units
// ---------------------------------------------------------------------------

/// What a run was told, step by step, each time with whether it was to stop.
pub type RunTrace = Seq<(StagingInput, bool)>;

/// The state after some steps.
pub open spec fn run_after(s: StagingState, t: RunTrace) -> StagingState
    decreases t.len(),
{
    if t.len() == 0 {
        s
    } else {
        run_after(s, t.drop_last()).next(t.last().0, t.last().1).0
    }
}

/// The action of the last step.
pub open spec fn run_action(s: StagingState, t: RunTrace) -> StagingActionView
    recommends
        t.len() > 0,
{
    run_after(s, t.drop_last()).next(t.last().0, t.last().1).1
}

/// The outcomes that the run itself reported in some steps: those of the files that were
/// decided when the plan was made.
pub open spec fn run_outcomes(s: StagingState, t: RunTrace) -> Seq<Report>
    decreases t.len(),
{
    if t.len() == 0 {
        Seq::empty()
    } else {
        let before = run_outcomes(s, t.drop_last());
        match run_action(s, t) {
            StagingActionView::Finish { file, outcome } => before.push(
                Report { file: file.source_rel_path, outcome },
            ),
            _ => before,
        }
    }
}

/// A unit that was handed to a worker, with its number and whether dates can be read.
pub struct Begun {
    pub unit: UnitView,
    pub seq: u64,
    pub has_exif: bool,
}

/// The units that were handed to workers in some steps.
pub open spec fn run_begun(s: StagingState, t: RunTrace) -> Seq<Begun>
    decreases t.len(),
{
    if t.len() == 0 {
        Seq::empty()
    } else {
        let before = run_begun(s, t.drop_last());
        match run_action(s, t) {
            StagingActionView::StartUnit { unit, seq, has_exif } => before.push(
                Begun { unit, seq, has_exif },
            ),
            _ => before,
        }
    }
}

/// Whether an event is the answer to what was asked for.
pub open spec fn run_answers(s: StagingState, e: StagingInput) -> bool {
    match s.stage {
        StagingStage::Ready => e is Start,
        StagingStage::SweepImages => e is Removed,
        StagingStage::SweepVideos => e is Removed,
        StagingStage::Announcing(_) => e is Sent,
        StagingStage::Reporting(_) => e is Finished,
        StagingStage::Spawning => e is Exif,
        StagingStage::ExifWarned => e is Sent,
        StagingStage::Acquiring(_) => e is Slot,
        StagingStage::Launching(_) => e is UnitStarted,
        StagingStage::Joining => e is Joined,
        StagingStage::Stopping => e is ShutDown,
        StagingStage::EndImages => e is Removed,
        StagingStage::EndVideos => e is Removed,
        StagingStage::Totalling => e is Totals,
        StagingStage::Finishing(_) => e is Sent,
        StagingStage::Over => true,
    }
}

/// Whether a step was told what it had asked for, and the listener and the workers stayed.
pub open spec fn run_goes_on(s: StagingState, e: StagingInput) -> bool {
    &&& run_answers(s, e)
    &&& e matches StagingInput::Sent(ok) ==> ok
    &&& e matches StagingInput::Slot(ok) ==> ok
}

/// Nobody cancelled the run, its listener stayed, its workers stayed, and every step was
/// told what it had asked for.
pub open spec fn run_undisturbed(s: StagingState, t: RunTrace) -> bool
    decreases t.len(),
{
    t.len() == 0 || {
        &&& run_undisturbed(s, t.drop_last())
        &&& !t.last().1
        &&& run_goes_on(run_after(s, t.drop_last()), t.last().0)
    }
}

/// How many decided files are behind the run.
spec fn rows_done(s: StagingState) -> int {
    match s.stage {
        StagingStage::Ready => 0,
        StagingStage::SweepImages => 0,
        StagingStage::SweepVideos => 0,
        StagingStage::Announcing(i) => i as int,
        StagingStage::Reporting(i) => i + 1,
        _ => s.rows.len() as int,
    }
}

/// How many units are behind the run, if nothing disturbs it.
spec fn units_done(s: StagingState) -> int {
    match s.stage {
        StagingStage::Ready => 0,
        StagingStage::SweepImages => 0,
        StagingStage::SweepVideos => 0,
        StagingStage::Announcing(_) => 0,
        StagingStage::Reporting(_) => 0,
        StagingStage::Spawning => 0,
        StagingStage::ExifWarned => 0,
        StagingStage::Acquiring(k) => k as int,
        StagingStage::Launching(k) => k + 1,
        _ => s.units.len() as int,
    }
}

/// Whether the run has not got beyond handing out units.
spec fn is_launching(s: StagingState) -> bool {
    match s.stage {
        StagingStage::Joining => false,
        StagingStage::Stopping => false,
        StagingStage::EndImages => false,
        StagingStage::EndVideos => false,
        StagingStage::Totalling => false,
        StagingStage::Finishing(_) => false,
        StagingStage::Over => false,
        _ => true,
    }
}

/// A number that is one where something holds.
spec fn one_if(b: bool) -> int {
    if b {
        1
    } else {
        0
    }
}

proof fn lemma_run_step(s: StagingState, e: StagingInput, cancelled: bool)
    requires
        s.wf(),
        s.rows.len() <= usize::MAX,
        s.units.len() <= usize::MAX,
    ensures
        ({
            let (n, a) = s.next(e, cancelled);
            &&& n.wf()
            &&& n.cfg == s.cfg && n.rows == s.rows && n.units == s.units && n.total == s.total
            &&& rows_done(s) + one_if(a is Finish) <= rows_done(n) <= s.rows.len()
            &&& units_done(s) + one_if(a is StartUnit) <= units_done(n) <= s.units.len()
            &&& is_launching(n) ==> is_launching(s) && units_done(n) == units_done(s) + one_if(
                a is StartUnit,
            )
            &&& a is StartUnit ==> is_launching(s) && a->seq == units_done(s) && a->unit
                == s.units[units_done(s)]
            &&& run_goes_on(s, e) && !cancelled ==> rows_done(n) == rows_done(s) + one_if(
                a is Finish,
            ) && units_done(n) == units_done(s) + one_if(a is StartUnit)
        }),
{
}

proof fn lemma_run_trace(s: StagingState, t: RunTrace)
    requires
        s.stage is Ready,
        s.rows.len() <= usize::MAX,
        s.units.len() <= usize::MAX,
    ensures
        ({
            let n = run_after(s, t);
            let begun = run_begun(s, t);
            &&& n.wf()
            &&& n.cfg == s.cfg && n.rows == s.rows && n.units == s.units && n.total == s.total
            &&& run_outcomes(s, t).len() <= rows_done(n) <= n.rows.len()
            &&& begun.len() <= units_done(n) <= n.units.len()
            &&& is_launching(n) ==> begun.len() == units_done(n)
            &&& forall|i: int|
                0 <= i < begun.len() ==> (#[trigger] begun[i]).unit == s.units[i] && begun[i].seq == i
            &&& run_undisturbed(s, t) ==> run_outcomes(s, t).len() == rows_done(n) && begun.len()
                == units_done(n)
        }),
    decreases t.len(),
{
    if t.len() > 0 {
        lemma_run_trace(s, t.drop_last());
        let b = run_after(s, t.drop_last());
        lemma_run_step(b, t.last().0, t.last().1);
        let before = run_begun(s, t.drop_last());
        let begun = run_begun(s, t);
        assert forall|i: int| 0 <= i < begun.len() implies (#[trigger] begun[i]).unit == s.units[i]
            && begun[i].seq == i by {
            if i < before.len() {
                assert(begun[i] == before[i]);
            }
        }
    }
}

/// The files of rows, each as often as it has a row.
pub open spec fn planned_files(items: Seq<PlannedFileView>) -> Multiset<Seq<char>>
    decreases items.len(),
{
    if items.len() == 0 {
        Multiset::empty()
    } else {
        planned_files(items.drop_last()).insert(items.last().source_rel_path)
    }
}

pub proof fn lemma_planned_concat(a: Seq<PlannedFileView>, b: Seq<PlannedFileView>)
    ensures
        planned_files(a + b) == planned_files(a).add(planned_files(b)),
    decreases b.len(),
{
    if b.len() == 0 {
        assert(a + b =~= a);
        assert(planned_files(a).add(planned_files(b)) =~= planned_files(a));
    } else {
        lemma_planned_concat(a, b.drop_last());
        assert((a + b).drop_last() =~= a + b.drop_last());
        assert(planned_files(a + b) =~= planned_files(a).add(planned_files(b)));
    }
}

proof fn lemma_run_finish(s: StagingState, e: StagingInput, cancelled: bool)
    requires
        s.wf(),
        s.rows.len() <= usize::MAX,
    ensures
        s.next(e, cancelled).1 matches StagingActionView::Finish { file, outcome } ==> rows_done(s)
            < s.rows.len() && file == s.rows[rows_done(s)] && outcome == execute::decided_outcome(
            file,
        ),
{
}

proof fn lemma_run_files(s: StagingState, t: RunTrace)
    requires
        s.stage is Ready,
        s.rows.len() <= usize::MAX,
        s.units.len() <= usize::MAX,
        run_undisturbed(s, t),
    ensures
        reported_files(run_outcomes(s, t)) == planned_files(
            s.rows.take(rows_done(run_after(s, t))),
        ),
    decreases t.len(),
{
    if t.len() > 0 {
        let b = run_after(s, t.drop_last());
        lemma_run_files(s, t.drop_last());
        lemma_run_trace(s, t.drop_last());
        lemma_run_step(b, t.last().0, t.last().1);
        lemma_run_finish(b, t.last().0, t.last().1);
        let before = run_outcomes(s, t.drop_last());
        let n = rows_done(b);
        if let StagingActionView::Finish { file, outcome } = run_action(s, t) {
            assert(run_outcomes(s, t).drop_last() =~= before);
            assert(s.rows.take(n + 1).drop_last() =~= s.rows.take(n));
            assert(s.rows.take(n + 1).last() == file);
        }
    } else {
        assert(s.rows.take(0) =~= Seq::<PlannedFileView>::empty());
    }
}

/// The report of a row that was decided when the plan was made.
pub open spec fn row_report(row: PlannedFileView) -> Report {
    Report { file: row.source_rel_path, outcome: execute::decided_outcome(row) }
}

/// Whatever the run itself reports is what was decided when the plan was made.
pub proof fn lemma_run_reports(s: StagingState, t: RunTrace)
    requires
        s.stage is Ready,
        s.rows.len() <= usize::MAX,
        s.units.len() <= usize::MAX,
    ensures
        forall|i: int|
            0 <= i < run_outcomes(s, t).len() ==> exists|k: int|
                0 <= k < s.rows.len() && #[trigger] run_outcomes(s, t)[i] == row_report(
                    #[trigger] s.rows[k],
                ),
    decreases t.len(),
{
    if t.len() > 0 {
        let b = run_after(s, t.drop_last());
        lemma_run_reports(s, t.drop_last());
        lemma_run_trace(s, t.drop_last());
        lemma_run_finish(b, t.last().0, t.last().1);
        let before = run_outcomes(s, t.drop_last());
        let os = run_outcomes(s, t);
        assert forall|i: int| 0 <= i < os.len() implies exists|k: int|
            0 <= k < s.rows.len() && #[trigger] os[i] == row_report(#[trigger] s.rows[k]) by {
            if i < before.len() {
                assert(os[i] == before[i]);
            } else {
                assert(os[i] == row_report(s.rows[rows_done(b)]));
            }
        }
    }
}

/// However a run goes, it reports at most one outcome for each file that was decided when
/// the plan was made, and it hands out units of the plan in their order, none twice; and a
/// run that nobody disturbs has reported all of those files and handed out all units when
/// it comes to its totals.
pub proof fn law_run_covers_the_plan(cfg: EngineConfigView, p: PlanView, t: RunTrace)
    requires
        p.items.len() <= usize::MAX,
        p.units.len() <= usize::MAX,
    ensures
        ({
            let s = staging::fresh(cfg, p);
            let begun = run_begun(s, t);
            &&& run_outcomes(s, t).len() <= execute::decided_rows(p.items).len()
            &&& begun.len() <= p.units.len()
            &&& forall|i: int|
                0 <= i < begun.len() ==> (#[trigger] begun[i]).unit == p.units[i] && begun[i].seq == i
            &&& run_undisturbed(s, t) && run_after(s, t).stage is Totalling ==> {
                &&& run_outcomes(s, t).len() == execute::decided_rows(p.items).len()
                &&& reported_files(run_outcomes(s, t)) == planned_files(
                    execute::decided_rows(p.items),
                )
                &&& begun.len() == p.units.len()
            }
        }),
{
    let s = staging::fresh(cfg, p);
    lemma_decided_len(p.items);
    lemma_run_trace(s, t);
    if run_undisturbed(s, t) && run_after(s, t).stage is Totalling {
        lemma_run_files(s, t);
        assert(s.rows.take(s.rows.len() as int) =~= s.rows);
    }
}

pub proof fn lemma_decided_len(items: Seq<PlannedFileView>)
    ensures
        execute::decided_rows(items).len() <= items.len(),
    decreases items.len(),
{
    if items.len() > 0 {
        lemma_decided_len(items.drop_last());
    }
}

// ---------------------------------------------------------------------------
// The plan of a scan
// ---------------------------------------------------------------------------

/// How many files units have.
pub open spec fn files_in(us: Seq<UnitView>) -> nat
    decreases us.len(),
{
    if us.len() == 0 {
        0
    } else {
        files_in(us.drop_last()) + 1 + us.last().sidecars.len()
    }
}

/// The files of units.
pub open spec fn unit_files(us: Seq<UnitView>) -> Multiset<Seq<char>>
    decreases us.len(),
{
    if us.len() == 0 {
        Multiset::empty()
    } else {
        unit_files(us.drop_last()).add(files_from(us.last(), 0))
    }
}

/// A plan in which every row is decided or stands for one file of a unit.
pub open spec fn is_covered(p: PlanView) -> bool {
    let decided = execute::decided_rows(p.items);
    &&& p.items.len() == decided.len() + files_in(p.units)
    &&& planned_files(p.items) == planned_files(decided).add(unit_files(p.units))
}

proof fn lemma_sidecar_files(source: Seq<char>, u: UnitView, i: int)
    requires
        1 <= i <= u.sidecars.len() + 1,
    ensures
        planned_files(plan::sidecar_rows(source, u.sidecars.skip(i - 1))) == files_from(u, i),
    decreases u.sidecars.len() + 1 - i,
{
    let rest = u.sidecars.skip(i - 1);
    let rows = plan::sidecar_rows(source, rest);
    if i <= u.sidecars.len() {
        lemma_sidecar_files(source, u, i + 1);
        let head = seq![plan::provisional(source, rest[0], MediaKind::Sidecar)];
        let tail = plan::sidecar_rows(source, u.sidecars.skip(i));
        assert(rows =~= head + tail);
        lemma_planned_concat(head, tail);
        assert(head.drop_last() =~= Seq::<PlannedFileView>::empty());
        assert(planned_files(head.drop_last()) =~= Multiset::empty());
        assert(planned_files(rows) =~= files_from(u, i));
    }
}

proof fn lemma_unit_row_files(source: Seq<char>, us: Seq<UnitView>)
    ensures
        planned_files(plan::unit_rows(source, us)) == unit_files(us),
    decreases us.len(),
{
    if us.len() > 0 {
        let u = us.last();
        let before = plan::unit_rows(source, us.drop_last());
        let first = before.push(plan::provisional(source, u.parent, u.parent_kind));
        lemma_unit_row_files(source, us.drop_last());
        lemma_sidecar_files(source, u, 1);
        assert(u.sidecars.skip(0) =~= u.sidecars);
        lemma_planned_concat(first, plan::sidecar_rows(source, u.sidecars));
        assert(first.drop_last() =~= before);
        assert(planned_files(plan::unit_rows(source, us)) =~= unit_files(us));
    }
}

pub proof fn lemma_decided_concat(a: Seq<PlannedFileView>, b: Seq<PlannedFileView>)
    ensures
        execute::decided_rows(a + b) == execute::decided_rows(a) + execute::decided_rows(b),
    decreases b.len(),
{
    if b.len() == 0 {
        assert(a + b =~= a);
        assert(execute::decided_rows(a) + execute::decided_rows(b) =~= execute::decided_rows(a));
    } else {
        lemma_decided_concat(a, b.drop_last());
        assert((a + b).drop_last() =~= a + b.drop_last());
        assert(execute::decided_rows(a + b) =~= execute::decided_rows(a) + execute::decided_rows(b));
    }
}

pub proof fn lemma_copies_are_not_decided(items: Seq<PlannedFileView>)
    requires
        forall|i: int| 0 <= i < items.len() ==> (#[trigger] items[i]).action == PlannedAction::Copy,
    ensures
        execute::decided_rows(items).len() == 0,
    decreases items.len(),
{
    if items.len() > 0 {
        assert(items[items.len() - 1].action == PlannedAction::Copy);
        lemma_copies_are_not_decided(items.drop_last());
    }
}

pub proof fn lemma_unit_rows(source: Seq<char>, us: Seq<UnitView>)
    ensures
        plan::unit_rows(source, us).len() == files_in(us),
        forall|i: int|
            0 <= i < plan::unit_rows(source, us).len() ==> (#[trigger] plan::unit_rows(
                source,
                us,
            )[i]).action == PlannedAction::Copy,
    decreases us.len(),
{
    if us.len() > 0 {
        lemma_unit_rows(source, us.drop_last());
        let head = plan::unit_rows(source, us.drop_last());
        let first = head.push(plan::provisional(source, us.last().parent, us.last().parent_kind));
        let rows = plan::unit_rows(source, us);
        assert forall|i: int| 0 <= i < rows.len() implies (#[trigger] rows[i]).action
            == PlannedAction::Copy by {
            if i < head.len() {
                assert(rows[i] == head[i]);
            } else if i >= first.len() {
                assert(rows[i] == plan::sidecar_rows(source, us.last().sidecars)[i - first.len()]);
            }
        }
    }
}

pub proof fn lemma_sorted_rows(sorting: Sorting, fs: Seq<SourceFileView>)
    ensures
        execute::decided_rows(sorting.rows(fs)) == sorting.rows(fs),
        forall|i: int|
            0 <= i < sorting.rows(fs).len() ==> (#[trigger] sorting.rows(fs)[i]).action
                == PlannedAction::SkipExists || sorting.rows(fs)[i].action
                == PlannedAction::SkipFiltered,
    decreases fs.len(),
{
    if fs.len() > 0 {
        lemma_sorted_rows(sorting, fs.drop_last());
        let before = sorting.rows(fs.drop_last());
        let rows = sorting.rows(fs);
        if sorting.row(fs.last()) is Some {
            assert(rows.drop_last() =~= before);
        }
        assert forall|i: int| 0 <= i < rows.len() implies (#[trigger] rows[i]).action
            == PlannedAction::SkipExists || rows[i].action == PlannedAction::SkipFiltered by {
            if i < before.len() {
                assert(rows[i] == before[i]);
            }
        }
    }
}

/// In the plan of a scan every row is either decided or stands for one file of the units.
pub proof fn law_scanned_plan_is_covered(
    scan: ScanState,
    profile: ProfileView,
    fs: Seq<SourceFileView>,
    library: Seq<IndexedFileView>,
)
    ensures
        is_covered(scan.plan(profile, fs, library)),
{
    let sorting = Sorting {
        cfg: scan.cfg,
        profile,
        source: scan.source,
        library: index::indexed(library),
    };
    let p = scan.plan(profile, fs, library);
    let rows = plan::unit_rows(scan.source, p.units);
    lemma_unit_rows(scan.source, p.units);
    lemma_copies_are_not_decided(rows);
    lemma_sorted_rows(sorting, fs);
    lemma_decided_concat(rows, sorting.rows(fs));
    assert(execute::decided_rows(p.items) =~= sorting.rows(fs));
    lemma_unit_row_files(scan.source, p.units);
    lemma_planned_concat(rows, sorting.rows(fs));
    assert(planned_files(p.items) =~= planned_files(sorting.rows(fs)).add(unit_files(p.units)));
}

// ---------------------------------------------------------------------------
// A whole import
// ---------------------------------------------------------------------------

/// What the counters show after some outcomes.
pub open spec fn tally(os: Seq<Report>) -> Counters
    decreases os.len(),
{
    if os.len() == 0 {
        Counters { copied: 0, skipped: 0, failed: 0 }
    } else {
        tally(os.drop_last()).with(os.last().outcome)
    }
}

pub proof fn lemma_tally(os: Seq<Report>)
    requires
        os.len() <= u64::MAX,
    ensures
        tally(os).copied + tally(os).skipped + tally(os).failed == os.len(),
    decreases os.len(),
{
    if os.len() > 0 {
        lemma_tally(os.drop_last());
    }
}

/// An import from its beginning to its totals.
pub struct Import {
    pub cfg: EngineConfigView,
    pub source: Seq<char>,
    pub plan: PlanView,
    /// What the run was told.
    pub run: RunTrace,
    /// What the work on each unit that was handed out was told.
    pub work: Seq<UnitTrace>,
    /// All outcomes, in the order in which they were counted.
    pub counted: Seq<Report>,
}

impl Import {
    /// The run as it begins.
    pub open spec fn start(self) -> StagingState {
        staging::fresh(self.cfg, self.plan)
    }

    /// The units that were handed out.
    pub open spec fn begun(self) -> Seq<Begun> {
        run_begun(self.start(), self.run)
    }

    /// The work on a unit as it begins.
    pub open spec fn unit_start(self, i: int) -> UnitState {
        let b = self.begun()[i];
        unit::fresh(self.cfg, self.source, b.unit, b.seq, b.has_exif)
    }

    /// The outcomes of the first units.
    pub open spec fn unit_reports(self, n: nat) -> Seq<Report>
        decreases n,
    {
        if n == 0 {
            Seq::empty()
        } else {
            self.unit_reports((n - 1) as nat) + unit_outcomes(
                self.unit_start(n - 1),
                self.work[n - 1],
            )
        }
    }

    /// All outcomes: those of the decided files and those of the units.
    pub open spec fn reports(self) -> Seq<Report> {
        run_outcomes(self.start(), self.run) + self.unit_reports(self.work.len())
    }

    /// The run has come to its totals, the work on all units is over, and every outcome that
    /// was reported was counted once, in whatever order the workers came to it.
    pub open spec fn is_complete(self) -> bool {
        &&& run_after(self.start(), self.run).stage is Totalling
        &&& self.work.len() == self.begun().len()
        &&& forall|i: int|
            0 <= i < self.work.len() ==> unit_after(self.unit_start(i), #[trigger] self.work[i]).stage is Over
        &&& self.counted.to_multiset() == self.reports().to_multiset()
    }

    /// Nobody cancelled the import and its listener stayed.
    pub open spec fn undisturbed(self) -> bool {
        &&& run_undisturbed(self.start(), self.run)
        &&& forall|i: int|
            0 <= i < self.work.len() ==> unit_undisturbed(
                self.unit_start(i),
                #[trigger] self.work[i],
            )
    }

    /// What the import comes to.
    pub open spec fn summary(self, cancelled: bool) -> SyncSummary {
        let c = tally(self.counted);
        SyncSummary {
            total: self.plan.items.len() as u64,
            copied: c.copied,
            skipped: c.skipped,
            failed: c.failed,
            cancelled,
        }
    }
}

proof fn lemma_unit_reports(w: Import, n: nat)
    requires
        n <= w.work.len() <= w.begun().len() <= w.plan.units.len(),
        forall|i: int| 0 <= i < w.begun().len() ==> (#[trigger] w.begun()[i]).unit == w.plan.units[i],
        forall|i: int|
            0 <= i < w.work.len() ==> unit_after(w.unit_start(i), #[trigger] w.work[i]).stage is Over,
    ensures
        w.unit_reports(n).len() <= files_in(w.plan.units.take(n as int)),
        w.undisturbed() ==> w.unit_reports(n).len() == files_in(w.plan.units.take(n as int))
            && reported_files(w.unit_reports(n)) == unit_files(w.plan.units.take(n as int)),
    decreases n,
{
    if n > 0 {
        lemma_unit_reports(w, (n - 1) as nat);
        let b = w.begun()[n - 1];
        let us = w.plan.units.take(n as int);
        assert(us.drop_last() =~= w.plan.units.take(n - 1));
        assert(us.last() == b.unit);
        assert(unit_after(w.unit_start(n - 1), w.work[n - 1]).stage is Over);
        law_unit_reports_each_file_once(
            w.cfg,
            w.source,
            b.unit,
            b.seq,
            b.has_exif,
            w.work[n - 1],
        );
        lemma_reported_concat(
            w.unit_reports((n - 1) as nat),
            unit_outcomes(w.unit_start(n - 1), w.work[n - 1]),
        );
    }
}

pub proof fn lemma_files_in_take(us: Seq<UnitView>, n: int)
    requires
        0 <= n <= us.len(),
    ensures
        n <= files_in(us.take(n)) <= files_in(us),
    decreases us.len(),
{
    if n == us.len() {
        assert(us.take(n) =~= us);
        if n > 0 {
            lemma_files_in_take(us.drop_last(), n - 1);
            assert(us.drop_last().take(n - 1) =~= us.drop_last());
        }
    } else {
        assert(us.drop_last().take(n) =~= us.take(n));
        lemma_files_in_take(us.drop_last(), n);
    }
}

pub proof fn lemma_reports_len(w: Import)
    requires
        is_covered(w.plan),
        w.plan.items.len() <= usize::MAX,
        w.is_complete(),
    ensures
        w.counted.len() == w.reports().len() <= w.plan.items.len(),
        w.undisturbed() ==> w.reports().len() == w.plan.items.len() && reported_files(w.reports())
            == planned_files(w.plan.items),
{
    let units = w.plan.units;
    lemma_files_in_take(units, units.len() as int);
    lemma_decided_len(w.plan.items);
    law_run_covers_the_plan(w.cfg, w.plan, w.run);
    let n = w.work.len();
    lemma_unit_reports(w, n);
    lemma_files_in_take(units, n as int);
    assert(units.take(units.len() as int) =~= units);
    vstd::seq_lib::to_multiset_len(w.counted);
    vstd::seq_lib::to_multiset_len(w.reports());
    lemma_reported_concat(run_outcomes(w.start(), w.run), w.unit_reports(n));
}

/// The counts of an import never exceed the number of its planned files, and where nobody
/// disturbs it they add up to that number: every planned file gets exactly one outcome, and
/// is counted once as copied, skipped or failed.
/// The summary with these counts is the last event and what the run completes with.
pub proof fn law_counts_add_up(w: Import, cancelled: bool, listening: bool)
    requires
        is_covered(w.plan),
        w.plan.items.len() <= usize::MAX,
        w.is_complete(),
    ensures
        w.summary(cancelled).total == w.plan.items.len(),
        w.summary(cancelled).copied + w.summary(cancelled).skipped + w.summary(cancelled).failed
            <= w.summary(cancelled).total,
        w.undisturbed() ==> w.summary(cancelled).copied + w.summary(cancelled).skipped + w.summary(
            cancelled,
        ).failed == w.summary(cancelled).total && reported_files(w.reports()) == planned_files(
            w.plan.items,
        ),
        ({
            let s = run_after(w.start(), w.run);
            let (n, told) = s.next(StagingInput::Totals(tally(w.counted)), cancelled);
            let (end, last) = n.next(StagingInput::Sent(listening), cancelled);
            &&& told == StagingActionView::Emit(
                EventView::ExecutionFinished { summary: w.summary(cancelled) },
            )
            &&& last == StagingActionView::Complete(w.summary(cancelled))
            &&& end.stage is Over
        }),
{
    lemma_reports_len(w);
    lemma_decided_len(w.plan.items);
    lemma_files_in_take(w.plan.units, w.plan.units.len() as int);
    lemma_run_trace(w.start(), w.run);
    lemma_tally(w.counted);
}

} // verus!
