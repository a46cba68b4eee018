//! What holds of the work on every unit.

use vstd::prelude::*;
use crate::classify::MediaKind;
use crate::config;
use crate::events::PlannedAction;
use crate::exiftool;
use crate::index::STAGING_DIR_NAME;
use crate::metadata;
use crate::path;
use crate::plan;
use crate::text;
use super::unit;
use super::unit::{ActionView, InputView, StageView, StagedView, UnitState};

verus! {

/// The work ends only after the staging directory was removed: nothing is over
/// until the removal was asked for and answered, and that is always the
/// directory of this unit.
pub proof fn law_staging_is_removed_at_the_end(s: UnitState, e: InputView, cancelled: bool)
    ensures
        s.next(e, cancelled).1 is Done ==> s.stage is Over || (s.stage is Cleaning && e is Removed),
        s.next(e, cancelled).0.stage is Over ==> s.stage is Over || (s.stage is Cleaning
            && e is Removed),
        s.next(e, cancelled).0.stage is Cleaning ==> s.next(e, cancelled).1 == (
        ActionView::RemoveDir { path: s.seq_dir }),
        s.next(e, cancelled).0.seq_dir == s.seq_dir,
{
}

/// A step that neither moves a file nor is about to.
spec fn moves_nothing(step: (UnitState, ActionView)) -> bool {
    &&& !(step.1 is Move)
    &&& !(step.0.stage is Reserving)
    &&& !(step.0.stage is Finalizing)
}

proof fn lemma_settle_moves_nothing(s: UnitState, j: int, cancelled: bool)
    ensures
        moves_nothing(s.settle(j, cancelled)),
{
}

proof fn lemma_other_stages_move_nothing(s: UnitState, e: InputView, cancelled: bool)
    requires
        !(s.stage is Placing),
        !(s.stage is Reserving),
        !(s.stage is Finalizing),
    ensures
        moves_nothing(s.next(e, cancelled)),
{
    match s.stage {
        StageView::Reading => {
            lemma_metadata_moves_nothing(s, exiftool::no_metadata(), cancelled);
        },
        StageView::AwaitMetadata => {
            if let InputView::Metadata(Ok(meta)) = e {
                lemma_metadata_moves_nothing(s, meta, cancelled);
            }
        },
        StageView::Warned => {
            lemma_metadata_moves_nothing(s, exiftool::no_metadata(), cancelled);
        },
        StageView::FallbackWarned => {
            lemma_settle_moves_nothing(s, 0, cancelled);
        },
        StageView::Settled(k) => {
            lemma_settle_moves_nothing(s, k + 1, cancelled);
        },
        StageView::Moving(_) => {},
        StageView::Discarding(_, _, _) => {},
        StageView::Cleaning => {},
        StageView::Over => {},
        _ => {
            lemma_copying_moves_nothing(s, e, cancelled);
        },
    }
}

proof fn lemma_copying_moves_nothing(s: UnitState, e: InputView, cancelled: bool)
    requires
        s.stage is Ready || s.stage is Started || s.stage is Announced || s.stage is Resolving
            || s.stage is Copying || s.stage is CopyFailed || s.stage is Orphaned
            || s.stage is OrphanFailed,
    ensures
        moves_nothing(s.next(e, cancelled)),
{
    assert forall|t: UnitState, i: int| moves_nothing(#[trigger] t.next_copy(i, cancelled)) by {}
    assert forall|t: UnitState, i: int| moves_nothing(#[trigger] t.copy_lost(i, cancelled)) by {}
    assert forall|t: UnitState, i: int| moves_nothing(#[trigger] t.orphan(i)) by {}
}

proof fn lemma_metadata_moves_nothing(s: UnitState, meta: exiftool::MetadataView, cancelled: bool)
    ensures
        moves_nothing(s.with_metadata(meta, cancelled)),
{
    let dated = UnitState { date: metadata::resolved(s.staged[0].mtime, meta), ..s };
    lemma_settle_moves_nothing(dated, 0, cancelled);
}

/// A file is moved into place only after its destination was decided to be
/// free and was reserved, and it is moved to that destination and no other.
pub proof fn law_only_reserved_files_are_moved(s: UnitState, e: InputView, cancelled: bool, j: int)
    ensures
        s.next(e, cancelled).1 is Move ==> s.stage is Finalizing && s.next(e, cancelled).1 == (
        ActionView::Move {
            from: s.staged[s.stage->Finalizing_0].staged_path,
            to: s.dest(s.stage->Finalizing_0),
        }),
        s.next(e, cancelled).0.stage == StageView::Finalizing(j) ==> s.stage
            == StageView::Reserving(j) && e is Reserved && e->Reserved_0 == PlannedAction::Copy,
        s.next(e, cancelled).0.stage == StageView::Reserving(j) ==> s.next(e, cancelled).1 == (
        ActionView::Reserve {
            dest: s.dest(j),
            name: s.staged_name(j),
            size: s.staged[j].size,
        }),
{
    match s.stage {
        StageView::Placing(k) => {
            lemma_settle_moves_nothing(s, k + 1, cancelled);
        },
        StageView::Reserving(k) => {},
        StageView::Finalizing(k) => {
            lemma_settle_moves_nothing(s, k + 1, cancelled);
        },
        _ => {
            lemma_other_stages_move_nothing(s, e, cancelled);
        },
    }
}

/// Between its reservation and its move nothing changes where a file goes.
pub proof fn law_destination_is_fixed(s: UnitState, e: InputView, cancelled: bool, j: int)
    requires
        s.stage is Reserving || s.stage is Finalizing || s.stage is Moving,
    ensures
        s.next(e, cancelled).0.dest(j) == s.dest(j),
        s.next(e, cancelled).0.staged == s.staged,
{
}

/// Once a run is cancelled, no further copy is started and no further
/// destination is reserved.
pub proof fn law_cancelled_work_starts_nothing(s: UnitState, e: InputView)
    ensures
        !(s.next(e, true).1 is ResolveSource),
        !(s.next(e, true).1 is CopyToStaging),
        !(s.next(e, true).1 is Reserve),
{
}

/// The media file and its sidecars go to one directory.
pub proof fn law_unit_stays_together(s: UnitState, i: int, j: int)
    requires
        0 <= i < s.staged.len(),
        0 <= j < s.staged.len(),
        plan::is_plain_name(s.staged_name(i)),
        plan::is_plain_name(s.staged_name(j)),
    ensures
        path::parent(s.dest(i)) == path::parent(s.dest(j)),
{
    let dir = plan::dest_dir(s.cfg, s.unit.parent_kind, s.date->0.datetime);
    path::law_parent_of_join(dir, s.staged_name(i));
    path::law_parent_of_join(dir, s.staged_name(j));
}

/// How far the work is from its end.
pub open spec fn distance(s: UnitState) -> int {
    let n = s.count();
    match s.stage {
        StageView::Ready => 20 * n + 100,
        StageView::Started(i) => 10 * n + 10 * (n - i) + 49,
        StageView::Announced(i) => 10 * n + 10 * (n - i) + 48,
        StageView::Resolving(i) => 10 * n + 10 * (n - i) + 47,
        StageView::Copying(i) => 10 * n + 10 * (n - i) + 46,
        StageView::CopyFailed(i) => 10 * n + 10 * (n - i) + 45,
        StageView::Orphaned(k) => 10 * (n - k) + 5,
        StageView::OrphanFailed(k) => 10 * (n - k) + 4,
        StageView::Reading => 10 * n + 40,
        StageView::AwaitMetadata => 10 * n + 39,
        StageView::Warned => 10 * n + 38,
        StageView::FallbackWarned => 10 * n + 37,
        StageView::Placing(j) => 10 * (n - j) + 9,
        StageView::Reserving(j) => 10 * (n - j) + 8,
        StageView::Finalizing(j) => 10 * (n - j) + 7,
        StageView::Moving(j) => 10 * (n - j) + 6,
        StageView::Discarding(j, _, _) => 10 * (n - j) + 5,
        StageView::Settled(j) => 10 * (n - j) + 4,
        StageView::Cleaning => 1,
        StageView::Over => 0,
    }
}

/// Whether an event is the answer to what was asked for.
pub open spec fn answers(s: UnitState, e: InputView) -> bool {
    match s.stage {
        StageView::Ready => e is Start,
        StageView::Started(_) => e is Sent,
        StageView::Announced(_) => e is Sent,
        StageView::Resolving(_) => e is SourcePath,
        StageView::Copying(_) => e is Copied,
        StageView::CopyFailed(_) => e is Finished,
        StageView::Orphaned(_) => e is Sent,
        StageView::OrphanFailed(_) => e is Finished,
        StageView::Reading => e is Sent,
        StageView::AwaitMetadata => e is Metadata,
        StageView::Warned => e is Sent,
        StageView::FallbackWarned => e is Sent,
        StageView::Placing(_) => e is Sent,
        StageView::Reserving(_) => e is Reserved,
        StageView::Finalizing(_) => e is Sent,
        StageView::Moving(_) => e is Moved,
        StageView::Discarding(_, _, _) => e is Removed,
        StageView::Settled(_) => e is Finished,
        StageView::Cleaning => e is Removed,
        StageView::Over => true,
    }
}

proof fn lemma_next_copy(s: UnitState, i: int, cancelled: bool)
    requires
        0 <= i <= s.count(),
    ensures
        distance(s.next_copy(i, cancelled).0) <= 10 * s.count() + 10 * (s.count() - i) + 49,
        distance(s.next_copy(i, cancelled).0) >= 0,
{
}

proof fn lemma_settle(s: UnitState, j: int, cancelled: bool)
    requires
        0 <= j,
        s.staged.len() <= s.count(),
    ensures
        0 <= distance(s.settle(j, cancelled).0),
        j <= s.count() ==> distance(s.settle(j, cancelled).0) <= 10 * (s.count() - j) + 9,
{
}

proof fn lemma_with_metadata(s: UnitState, meta: exiftool::MetadataView, cancelled: bool)
    requires
        s.is_staged(),
    ensures
        0 <= distance(s.with_metadata(meta, cancelled).0) <= 10 * s.count() + 37,
{
    let dated = UnitState { date: metadata::resolved(s.staged[0].mtime, meta), ..s };
    lemma_settle(dated, 0, cancelled);
}

/// The work on every unit comes to an end: each answer brings it nearer.
pub proof fn law_unit_ends(s: UnitState, e: InputView, cancelled: bool)
    requires
        s.wf(),
        answers(s, e),
    ensures
        s.stage is Over || 0 <= distance(s.next(e, cancelled).0) < distance(s),
{
    let n = s.next(e, cancelled).0;
    match s.stage {
        StageView::Ready => {
            lemma_next_copy(s, 0, cancelled);
        },
        StageView::Started(i) => {
            lemma_next_copy(s, i + 1, cancelled);
        },
        StageView::Announced(i) => {
            lemma_next_copy(s, i + 1, cancelled);
        },
        StageView::Resolving(i) => {
            lemma_next_copy(s, i + 1, cancelled);
        },
        StageView::Copying(i) => {
            let more = UnitState {
                staged: s.staged.push(
                    StagedView {
                        staged_path: s.staging_path(i),
                        rel_path: s.file(i).rel_path,
                        size: s.file(i).size,
                        kind: s.kind(i),
                        mtime: s.file(i).mtime,
                    },
                ),
                ..s
            };
            lemma_next_copy(more, i + 1, cancelled);
        },
        StageView::CopyFailed(i) => {
            lemma_next_copy(s, i + 1, cancelled);
        },
        StageView::Orphaned(k) => {},
        StageView::OrphanFailed(k) => {},
        StageView::Reading => {
            lemma_with_metadata(s, exiftool::no_metadata(), cancelled);
        },
        StageView::AwaitMetadata => {
            if let InputView::Metadata(Ok(meta)) = e {
                lemma_with_metadata(s, meta, cancelled);
            }
        },
        StageView::Warned => {
            lemma_with_metadata(s, exiftool::no_metadata(), cancelled);
        },
        StageView::FallbackWarned => {
            lemma_settle(s, 0, cancelled);
        },
        StageView::Placing(j) => {
            lemma_settle(s, j + 1, cancelled);
        },
        StageView::Reserving(j) => {},
        StageView::Finalizing(j) => {
            lemma_settle(s, j + 1, cancelled);
        },
        StageView::Moving(j) => {},
        StageView::Discarding(j, _, _) => {},
        StageView::Settled(j) => {
            lemma_settle(s, j + 1, cancelled);
        },
        StageView::Cleaning => {},
        StageView::Over => {},
    }
}

/// How many files have an outcome by now, in work that was not interrupted.
pub open spec fn reported(s: UnitState) -> int {
    let lost = s.count() - s.staged.len();
    match s.stage {
        StageView::Ready => 0,
        StageView::Started(i) => i - s.staged.len(),
        StageView::Announced(i) => i - s.staged.len(),
        StageView::Resolving(i) => i - s.staged.len(),
        StageView::Copying(i) => i - s.staged.len(),
        StageView::CopyFailed(i) => i + 1 - s.staged.len(),
        StageView::Orphaned(k) => k + 1,
        StageView::OrphanFailed(k) => k + 2,
        StageView::Reading => lost,
        StageView::AwaitMetadata => lost,
        StageView::Warned => lost,
        StageView::FallbackWarned => lost,
        StageView::Placing(j) => lost + j,
        StageView::Reserving(j) => lost + j,
        StageView::Finalizing(j) => lost + j,
        StageView::Moving(j) => lost + j,
        StageView::Discarding(j, _, _) => lost + j,
        StageView::Settled(j) => lost + j + 1,
        StageView::Cleaning => s.count(),
        StageView::Over => s.count(),
    }
}

/// Work that is not interrupted: nobody cancels it and its listener stays.
pub open spec fn undisturbed(s: UnitState, e: InputView) -> bool {
    answers(s, e) && (e matches InputView::Sent(ok) ==> ok)
}

/// Work that is not interrupted reports exactly one outcome for each file of
/// its unit: every step that reports one adds one, no other step adds any, and
/// the staging directory is removed only when all files have theirs.
pub proof fn law_every_file_gets_one_outcome(s: UnitState, e: InputView)
    requires
        s.wf(),
        undisturbed(s, e),
    ensures
        reported(s.next(e, false).0) == reported(s) + if s.next(e, false).1 is Finish {
            1int
        } else {
            0int
        },
        reported(s) >= 0,
{
    let n = s.next(e, false).0;
    match s.stage {
        StageView::Copying(i) => {
            if let InputView::Copied(Ok(_)) = e {
                let more = UnitState {
                    staged: s.staged.push(
                        StagedView {
                            staged_path: s.staging_path(i),
                            rel_path: s.file(i).rel_path,
                            size: s.file(i).size,
                            kind: s.kind(i),
                            mtime: s.file(i).mtime,
                        },
                    ),
                    ..s
                };
                assert(s.next(e, false) == more.next_copy(i + 1, false));
            }
        },
        StageView::Reading => {
            if !s.has_exif {
                lemma_reported_with_metadata(s, exiftool::no_metadata());
            }
        },
        StageView::AwaitMetadata => {
            if let InputView::Metadata(Ok(meta)) = e {
                lemma_reported_with_metadata(s, meta);
            }
        },
        StageView::Warned => {
            lemma_reported_with_metadata(s, exiftool::no_metadata());
        },
        _ => {},
    }
}

proof fn lemma_reported_with_metadata(s: UnitState, meta: exiftool::MetadataView)
    requires
        s.is_staged(),
    ensures
        reported(s.with_metadata(meta, false).0) == s.count() - s.staged.len(),
        !(s.with_metadata(meta, false).1 is Finish),
{
    let dated = UnitState { date: metadata::resolved(s.staged[0].mtime, meta), ..s };
    assert(dated.staged == s.staged);
}

/// A path directly below the staging directory of the unit.
pub open spec fn in_staging(s: UnitState, p: Seq<char>) -> bool {
    exists|name: Seq<char>| p == #[trigger] path::join(s.seq_dir, name) && !name.contains('/')
}

/// Every staged file is in the staging directory of the unit.
pub open spec fn all_in_staging(s: UnitState) -> bool {
    forall|j: int| 0 <= j < s.staged.len() ==> in_staging(s, (#[trigger] s.staged[j]).staged_path)
}

/// What is written, moved away or removed is in the staging directory of the unit, or is
/// that directory itself.
pub open spec fn keeps_to_staging(s: UnitState, a: ActionView) -> bool {
    match a {
        ActionView::CopyToStaging { from, to, size, file } => in_staging(s, to),
        ActionView::Move { from, to } => in_staging(s, from),
        ActionView::Remove { path } => in_staging(s, path),
        ActionView::RemoveDir { path } => path == s.seq_dir,
        _ => true,
    }
}

proof fn lemma_staging_path(s: UnitState, i: int)
    ensures
        in_staging(s, s.staging_path(i)),
{
    let name = text::after_last(s.file(i).rel_path, '/');
    text::lemma_after_last(s.file(i).rel_path, '/');
    assert(s.staging_path(i) == path::join(s.seq_dir, name));
}

proof fn lemma_settle_keeps_to_staging(s: UnitState, j: int, cancelled: bool)
    requires
        all_in_staging(s),
        0 <= j,
    ensures
        all_in_staging(s.settle(j, cancelled).0),
        keeps_to_staging(s, s.settle(j, cancelled).1),
{
    let n = s.settle(j, cancelled).0;
    assert(n.staged == s.staged && n.seq_dir == s.seq_dir);
    assert forall|k: int| 0 <= k < n.staged.len() implies in_staging(
        n,
        (#[trigger] n.staged[k]).staged_path,
    ) by {
        lemma_same_staging(s, n, s.staged[k].staged_path);
    }
}

proof fn lemma_same_staging(s: UnitState, n: UnitState, p: Seq<char>)
    requires
        s.seq_dir == n.seq_dir,
        in_staging(s, p),
    ensures
        in_staging(n, p),
{
    let name = choose|name: Seq<char>| p == #[trigger] path::join(s.seq_dir, name)
        && !name.contains('/');
    assert(p == path::join(n.seq_dir, name));
}

proof fn lemma_unchanged_staging(s: UnitState, n: UnitState)
    requires
        all_in_staging(s),
        n.staged == s.staged,
        n.seq_dir == s.seq_dir,
    ensures
        all_in_staging(n),
{
    assert forall|k: int| 0 <= k < n.staged.len() implies in_staging(
        n,
        (#[trigger] n.staged[k]).staged_path,
    ) by {
        lemma_same_staging(s, n, s.staged[k].staged_path);
    }
}

proof fn lemma_metadata_keeps_to_staging(s: UnitState, meta: exiftool::MetadataView, cancelled: bool)
    requires
        all_in_staging(s),
    ensures
        all_in_staging(s.with_metadata(meta, cancelled).0),
        keeps_to_staging(s, s.with_metadata(meta, cancelled).1),
{
    let dated = UnitState { date: metadata::resolved(s.staged[0].mtime, meta), ..s };
    lemma_unchanged_staging(s, dated);
    lemma_settle_keeps_to_staging(dated, 0, cancelled);
    lemma_unchanged_staging(s, s.with_metadata(meta, cancelled).0);
    if let ActionView::Remove { path } = s.with_metadata(meta, cancelled).1 {
        lemma_same_staging(dated, s, path);
    }
}

proof fn lemma_copying_keeps_to_staging(s: UnitState, e: InputView, cancelled: bool)
    requires
        all_in_staging(s),
        s.stage is Ready || s.stage is Started || s.stage is Announced || s.stage is Resolving
            || s.stage is Copying || s.stage is CopyFailed || s.stage is Orphaned
            || s.stage is OrphanFailed || s.stage is Cleaning || s.stage is Over,
    ensures
        all_in_staging(s.next(e, cancelled).0),
        keeps_to_staging(s, s.next(e, cancelled).1),
{
    let n = s.next(e, cancelled).0;
    match s.stage {
        StageView::Resolving(i) => {
            lemma_staging_path(s, i);
        },
        StageView::Copying(i) => {
            lemma_staging_path(s, i);
        },
        _ => {},
    }
    if n.staged == s.staged {
        lemma_unchanged_staging(s, n);
    } else {
        assert forall|k: int| 0 <= k < n.staged.len() implies in_staging(
            n,
            (#[trigger] n.staged[k]).staged_path,
        ) by {
            if k < s.staged.len() {
                lemma_same_staging(s, n, s.staged[k].staged_path);
            } else {
                lemma_same_staging(s, n, n.staged[k].staged_path);
            }
        }
    }
}

/// Files of the source and files of the library are never removed, moved away or written
/// over by copying: whatever is written, moved away or removed is in the staging directory
/// of the unit.
pub proof fn law_only_staging_is_touched(s: UnitState, e: InputView, cancelled: bool)
    requires
        s.wf(),
        all_in_staging(s),
    ensures
        all_in_staging(s.next(e, cancelled).0),
        keeps_to_staging(s, s.next(e, cancelled).1),
{
    let n = s.next(e, cancelled).0;
    match s.stage {
        StageView::Reading => {
            lemma_metadata_keeps_to_staging(s, exiftool::no_metadata(), cancelled);
            lemma_unchanged_staging(s, n);
        },
        StageView::AwaitMetadata => {
            if let InputView::Metadata(Ok(meta)) = e {
                lemma_metadata_keeps_to_staging(s, meta, cancelled);
            }
            lemma_unchanged_staging(s, n);
        },
        StageView::Warned => {
            lemma_metadata_keeps_to_staging(s, exiftool::no_metadata(), cancelled);
            lemma_unchanged_staging(s, n);
        },
        StageView::FallbackWarned => {
            lemma_settle_keeps_to_staging(s, 0, cancelled);
            lemma_unchanged_staging(s, n);
        },
        StageView::Placing(j) => {
            lemma_settle_keeps_to_staging(s, j + 1, cancelled);
            lemma_unchanged_staging(s, n);
        },
        StageView::Reserving(j) => {
            lemma_unchanged_staging(s, n);
        },
        StageView::Finalizing(j) => {
            lemma_settle_keeps_to_staging(s, j + 1, cancelled);
            lemma_unchanged_staging(s, n);
        },
        StageView::Moving(j) => {
            lemma_unchanged_staging(s, n);
        },
        StageView::Discarding(_, _, _) => {
            lemma_unchanged_staging(s, n);
        },
        StageView::Settled(j) => {
            lemma_settle_keeps_to_staging(s, j + 1, cancelled);
            lemma_unchanged_staging(s, n);
        },
        _ => {
            lemma_copying_keeps_to_staging(s, e, cancelled);
        },
    }
}

/// Two units with different numbers that go to one root do not share a staging directory.
pub proof fn law_units_have_their_own_directories(
    cfg: config::EngineConfigView,
    kind: MediaKind,
    a: u64,
    b: u64,
)
    requires
        a != b,
    ensures
        unit::staging_dir(cfg, kind, a) != unit::staging_dir(cfg, kind, b),
{
    let base = path::join(plan::root_for(cfg, kind), STAGING_DIR_NAME@);
    let x = text::decimal(a as nat);
    let y = text::decimal(b as nat);
    text::lemma_decimal_digits(a as nat);
    text::lemma_decimal_digits(b as nat);
    let d = if base.len() == 0 || base.last() == '/' {
        base
    } else {
        base.push('/')
    };
    assert(path::join(base, x) == d + x);
    assert(path::join(base, y) == d + y);
    if d + x == d + y {
        assert((d + x).skip(d.len() as int) =~= x);
        assert((d + y).skip(d.len() as int) =~= y);
        text::lemma_decimal_injective(a as nat, b as nat);
    }
}

} // verus!
