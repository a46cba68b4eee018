//! What each step of the work on a unit does.

use vstd::prelude::*;
use crate::classify::MediaKind;
use crate::config::EngineConfig;
use crate::events;
use crate::events::{EventView, FileIdView, FilePhase, OutcomeView, PlannedAction, WarningKind};
use crate::exiftool::MetadataView;
use crate::metadata::{self, DateSource, ResolvedView};
use crate::path::{self, NativeView};
use crate::plan::{self, UnitView};
use crate::source::SourceFileView;
use crate::text;
use super::unit;
use super::unit::{ActionView, InputView, StageView, StagedView, UnitState};

verus! {

/// The file of a unit at a position: the media file comes first, then its sidecars.
pub open spec fn file_at(s: UnitState, i: int) -> SourceFileView {
    if i <= 0 {
        s.unit.parent
    } else {
        s.unit.sidecars[i - 1]
    }
}

/// Whether an action reports a file of the source with an outcome.
pub open spec fn reports(
    a: ActionView,
    source: Seq<char>,
    rel_path: Seq<char>,
    size: u64,
    outcome: OutcomeView,
) -> bool {
    a matches ActionView::Finish { file, outcome: told } && told == outcome && file.source == source
        && file.source_rel_path == rel_path && file.source_size == size
}

/// The files of a unit are copied one after the other, the media file first: each is announced,
/// then the source is asked for it.
pub proof fn law_files_are_taken_in_order(s: UnitState, i: int)
    requires
        0 <= i <= s.unit.sidecars.len(),
    ensures
        s.stage is Ready ==> s.next(InputView::Start, false).0.stage == StageView::Started(0) && (
        s.next(InputView::Start, false).1 matches ActionView::Emit(EventView::FileStarted { file })
            && file.source == s.source && file.source_rel_path == s.unit.parent.rel_path
            && file.kind == events::wire_kind(s.unit.parent_kind)),
        s.stage == StageView::Started(i) ==> s.next(InputView::Sent(true), false).0.stage
            == StageView::Announced(i) && s.next(InputView::Sent(true), false).1
            == ActionView::Emit(
            EventView::FilePhaseChanged {
                file: FileIdView { source: s.source, rel_path: file_at(s, i).rel_path },
                phase: FilePhase::Copying,
            },
        ),
        s.stage == StageView::Announced(i) ==> s.next(InputView::Sent(true), false) == (
            s.at(StageView::Resolving(i)),
            ActionView::ResolveSource { file: file_at(s, i) },
        ),
{
}

/// A file is copied from where the source says it is, to its own name in the staging directory
/// of the unit; a file that the source cannot find has failed, with what the source said.
pub proof fn law_files_are_copied_from_the_source(
    s: UnitState,
    i: int,
    p: NativeView,
    m: Seq<char>,
)
    requires
        s.stage == StageView::Resolving(i),
        0 <= i <= s.unit.sidecars.len(),
    ensures
        s.next(InputView::SourcePath(Ok(p)), false).1 == (ActionView::CopyToStaging {
            from: p,
            to: path::join(s.seq_dir, text::after_last(file_at(s, i).rel_path, '/')),
            size: file_at(s, i).size,
            file: FileIdView { source: s.source, rel_path: file_at(s, i).rel_path },
        }),
        s.next(InputView::SourcePath(Ok(p)), false).0.stage == StageView::Copying(i),
        reports(
            s.next(InputView::SourcePath(Err(m)), false).1,
            s.source,
            file_at(s, i).rel_path,
            file_at(s, i).size,
            OutcomeView::Failed { error: m },
        ),
        s.next(InputView::SourcePath(Err(m)), false).0.staged == s.staged,
{
}

/// A copy that was made is staged with what is known of its file; one that failed is reported
/// with the reason, and nothing is staged for it.
pub proof fn law_copies_are_staged(s: UnitState, i: int, m: Seq<char>)
    requires
        s.stage == StageView::Copying(i),
        0 <= i <= s.unit.sidecars.len(),
    ensures
        s.next(InputView::Copied(Ok(())), false).0.staged == s.staged.push(
            StagedView {
                staged_path: path::join(s.seq_dir, text::after_last(file_at(s, i).rel_path, '/')),
                rel_path: file_at(s, i).rel_path,
                size: file_at(s, i).size,
                kind: if i == 0 {
                    s.unit.parent_kind
                } else {
                    MediaKind::Sidecar
                },
                mtime: file_at(s, i).mtime,
            },
        ),
        i < s.unit.sidecars.len() ==> s.next(InputView::Copied(Ok(())), false).0.stage
            == StageView::Started(i + 1),
        i == s.unit.sidecars.len() ==> s.next(InputView::Copied(Ok(())), false).0.stage is Reading,
        reports(
            s.next(InputView::Copied(Err(m)), false).1,
            s.source,
            file_at(s, i).rel_path,
            file_at(s, i).size,
            OutcomeView::Failed { error: m },
        ),
        s.next(InputView::Copied(Err(m)), false).0.staged == s.staged,
        s.next(InputView::Copied(Err(m)), false).0.stage == StageView::CopyFailed(i),
{
}

/// Where the media file is lost, every sidecar is reported as failed, one after the other, and
/// none is copied; where a sidecar is lost, the others go on.
pub proof fn law_sidecars_share_the_loss_of_their_media(s: UnitState, k: int)
    requires
        0 <= k < s.unit.sidecars.len(),
    ensures
        s.stage == StageView::CopyFailed(0) ==> s.next(InputView::Finished, false).0.stage
            == StageView::Orphaned(0),
        s.stage == StageView::Orphaned(k) ==> (s.next(
            InputView::Sent(true),
            false,
        ).1 matches ActionView::Finish { file, outcome } && outcome == (OutcomeView::Failed {
            error: "parent copy failed; sidecar not copied"@,
        }) && file.source_rel_path == s.unit.sidecars[k].rel_path && file.source_size
            == s.unit.sidecars[k].size && file.source == s.source) && s.next(
            InputView::Sent(true),
            false,
        ).0.stage == StageView::OrphanFailed(k),
        s.stage == StageView::OrphanFailed(k) && k + 1 < s.unit.sidecars.len() ==> s.next(
            InputView::Finished,
            false,
        ).0.stage == StageView::Orphaned(k + 1),
        s.stage == StageView::OrphanFailed(k) && k + 1 == s.unit.sidecars.len() ==> s.next(
            InputView::Finished,
            false,
        ).0.stage is Cleaning,
        s.stage == StageView::CopyFailed(k + 1) && k + 1 < s.unit.sidecars.len() ==> s.next(
            InputView::Finished,
            false,
        ).0.stage == StageView::Started(k + 2),
        s.stage == StageView::CopyFailed(k + 1) && k + 1 == s.unit.sidecars.len() ==> s.next(
            InputView::Finished,
            false,
        ).0.stage is Reading,
{
}

/// The date of a unit is that of its media file: ExifTool is asked about the staged copy, and
/// what it answers counts with the time of modification that the source told. Without ExifTool,
/// and where it fails, the time of modification alone counts.
pub proof fn law_units_are_dated_by_their_media(s: UnitState, meta: MetadataView, m: Seq<char>)
    requires
        s.staged.len() > 0,
    ensures
        s.stage is Reading && s.has_exif ==> s.next(InputView::Sent(true), false) == (
            s.at(StageView::AwaitMetadata),
            ActionView::ReadMetadata { path: s.staged[0].staged_path },
        ),
        s.stage is Reading && !s.has_exif ==> s.next(InputView::Sent(true), false).0.date == (
        match s.staged[0].mtime {
            Some(d) => Some(
                ResolvedView {
                    datetime: d,
                    source: DateSource::FileMtime,
                    make: None,
                    model: None,
                },
            ),
            None => None,
        }),
        s.stage is AwaitMetadata ==> s.next(InputView::Metadata(Ok(meta)), false).0.date
            == metadata::resolved(s.staged[0].mtime, meta),
        s.stage is AwaitMetadata ==> s.next(InputView::Metadata(Err(m)), false).0 == s.at(
            StageView::Warned,
        ) && (s.next(
            InputView::Metadata(Err(m)),
            false,
        ).1 matches ActionView::Emit(EventView::Warning { kind, message, file }) && kind
            == WarningKind::MetadataFallback && text::holds(message, m) && file == Some(
            FileIdView { source: s.source, rel_path: s.staged[0].rel_path },
        )),
        s.stage is Warned ==> s.next(InputView::Sent(true), false).0.date == (
        match s.staged[0].mtime {
            Some(d) => Some(
                ResolvedView {
                    datetime: d,
                    source: DateSource::FileMtime,
                    make: None,
                    model: None,
                },
            ),
            None => None,
        }),
{
    if s.stage is AwaitMetadata {
        let front = s.staged[0].rel_path + ": metadata read failed; using file mtime: "@;
        let message = front + m;
        assert(message.subrange(front.len() as int, (front.len() + m.len()) as int) =~= m);
        assert(text::stands_at(message, m, front.len() as int));
    }
}

/// A date from anywhere but the camera's own record is told before the files are placed; a
/// date of the camera is not. Without a date every staged file is left out, for that reason.
pub proof fn law_fallbacks_are_told(s: UnitState, meta: MetadataView)
    requires
        s.stage is AwaitMetadata,
        s.staged.len() > 0,
    ensures
        ({
            let (n, a) = s.next(InputView::Metadata(Ok(meta)), false);
            let date = metadata::resolved(s.staged[0].mtime, meta);
            &&& date is Some && date->0.source is DateTimeOriginal ==> n.stage
                == StageView::Placing(0) && a is Emit && a->Emit_0 is FilePhaseChanged
            &&& date is Some && !(date->0.source is DateTimeOriginal) ==> n.stage is FallbackWarned
                && (a matches ActionView::Emit(EventView::Warning { kind, message, file }) && kind
                == WarningKind::MetadataFallback && file == Some(
                FileIdView { source: s.source, rel_path: s.staged[0].rel_path },
            ))
            &&& date is None ==> a == (ActionView::Remove { path: s.staged[0].staged_path }) && (
            n.stage matches StageView::Discarding(j, file, outcome) && j == 0 && file.action
                == PlannedAction::SkipNoDate && outcome is Skipped && file.source_rel_path
                == s.staged[0].rel_path)
        }),
{
}

/// A file is placed by the date and the kind of its media file, under its own name: its place
/// is asked for before anything is moved. Where the layout cannot be used, the file has failed.
pub proof fn law_places_are_asked_for(s: UnitState, j: int)
    requires
        s.stage == StageView::Placing(j),
        0 <= j < s.staged.len(),
        s.date is Some,
    ensures
        ({
            let (n, a) = s.next(InputView::Sent(true), false);
            let name = text::after_last(s.staged[j].rel_path, '/');
            let fault = plan::layout_fault(s.cfg, s.unit.parent_kind);
            &&& fault is None ==> a == (ActionView::Reserve {
                dest: plan::dest_path(s.cfg, s.unit.parent_kind, s.date->0.datetime, name),
                name,
                size: s.staged[j].size,
            }) && n.stage == StageView::Reserving(j)
            &&& fault is Some ==> a == (ActionView::Remove { path: s.staged[j].staged_path }) && (
            n.stage matches StageView::Discarding(k, file, outcome) && k == j
                && outcome == (OutcomeView::Failed { error: fault->0.message() })
                && file.source_rel_path == s.staged[j].rel_path)
        }),
{
}

/// What was decided on a place is what happens: a free place is taken, a file that is there is
/// skipped for the reason that was given, and a conflict is a failure for the reason that was
/// given. What is not moved is removed from the staging directory, and nothing else is.
pub proof fn law_decisions_are_carried_out(
    s: UnitState,
    j: int,
    reason: Seq<char>,
    cancelled: bool,
)
    requires
        s.stage == StageView::Reserving(j),
        0 <= j < s.staged.len(),
        s.date is Some,
    ensures
        s.next(InputView::Reserved(PlannedAction::Copy, None), cancelled).0.stage
            == StageView::Finalizing(j),
        ({
            let (n, a) = s.next(
                InputView::Reserved(PlannedAction::SkipExists, Some(reason)),
                cancelled,
            );
            let (end, last) = n.next(InputView::Removed, cancelled);
            &&& a == (ActionView::Remove { path: s.staged[j].staged_path })
            &&& reports(
                last,
                s.source,
                s.staged[j].rel_path,
                s.staged[j].size,
                OutcomeView::Skipped { reason },
            )
            &&& last matches ActionView::Finish { file, outcome } && file.action
                == PlannedAction::SkipExists && file.reason == Some(reason) && file.datetime
                == Some(s.date->0.datetime) && file.kind == events::wire_kind(s.staged[j].kind)
            &&& end.stage == StageView::Settled(j)
        }),
        ({
            let (n, a) = s.next(
                InputView::Reserved(PlannedAction::Error, Some(reason)),
                cancelled,
            );
            let (end, last) = n.next(InputView::Removed, cancelled);
            &&& a == (ActionView::Remove { path: s.staged[j].staged_path })
            &&& reports(
                last,
                s.source,
                s.staged[j].rel_path,
                s.staged[j].size,
                OutcomeView::Failed { error: reason },
            )
            &&& last matches ActionView::Finish { file, outcome } && file.action
                == PlannedAction::Error && file.reason == Some(reason)
            &&& end.stage == StageView::Settled(j)
        }),
{
}

/// A file that was given a place is moved there from the staging directory; once it is there it
/// is reported as copied, with its size, its place and its date. A move that fails is reported
/// with the reason, after the staged file was removed.
pub proof fn law_moves_are_reported_as_they_went(
    s: UnitState,
    j: int,
    m: Seq<char>,
    cancelled: bool,
)
    requires
        0 <= j < s.staged.len(),
        s.date is Some,
    ensures
        ({
            let dest = plan::dest_path(
                s.cfg,
                s.unit.parent_kind,
                s.date->0.datetime,
                text::after_last(s.staged[j].rel_path, '/'),
            );
            &&& s.stage == StageView::Finalizing(j) ==> s.next(InputView::Sent(true), cancelled) == (
                s.at(StageView::Moving(j)),
                ActionView::Move { from: s.staged[j].staged_path, to: dest },
            )
            &&& s.stage == StageView::Moving(j) ==> {
                let (n, a) = s.next(InputView::Moved(Ok(())), cancelled);
                &&& reports(
                    a,
                    s.source,
                    s.staged[j].rel_path,
                    s.staged[j].size,
                    OutcomeView::Copied { bytes: s.staged[j].size },
                )
                &&& a matches ActionView::Finish { file, outcome } && file.dest_path == Some(dest)
                    && file.action == PlannedAction::Copy && file.datetime == Some(
                    s.date->0.datetime,
                ) && file.date_source == Some(events::wire_date_source(s.date->0.source))
                    && file.kind == events::wire_kind(s.staged[j].kind) && file.reason is None
                &&& n.stage == StageView::Settled(j)
            }
            &&& s.stage == StageView::Moving(j) ==> {
                let (n, a) = s.next(InputView::Moved(Err(m)), cancelled);
                let (end, last) = n.next(InputView::Removed, cancelled);
                &&& a == (ActionView::Remove { path: s.staged[j].staged_path })
                &&& reports(
                    last,
                    s.source,
                    s.staged[j].rel_path,
                    s.staged[j].size,
                    OutcomeView::Failed { error: m },
                )
                &&& end.stage == StageView::Settled(j)
            }
        }),
{
}

/// After one staged file comes the next, and after the last the staging directory is removed.
pub proof fn law_staged_files_are_settled_in_order(s: UnitState, j: int)
    requires
        s.stage == StageView::Settled(j),
        0 <= j < s.staged.len(),
    ensures
        j + 1 < s.staged.len() && s.date is Some ==> s.next(InputView::Finished, false).0.stage
            == StageView::Placing(j + 1),
        j + 1 < s.staged.len() && s.date is None ==> (s.next(
            InputView::Finished,
            false,
        ).0.stage matches StageView::Discarding(k, file, outcome) && k == j + 1 && file.action
            == PlannedAction::SkipNoDate && outcome is Skipped && file.source_rel_path
            == s.staged[j + 1].rel_path),
        j + 1 == s.staged.len() ==> s.next(InputView::Finished, false) == (
            s.at(StageView::Cleaning),
            ActionView::RemoveDir { path: s.seq_dir },
        ),
        s.next(InputView::Finished, true) == (
            s.at(StageView::Cleaning),
            ActionView::RemoveDir { path: s.seq_dir },
        ),
{
}

/// A unit is staged below the root that its media file goes to, in a directory of its own
/// number; it begins with nothing staged and no date.
pub proof fn law_units_are_staged_below_their_root(
    cfg: EngineConfig,
    source: Seq<char>,
    u: UnitView,
    seq: u64,
    has_exif: bool,
)
    ensures
        ({
            let s = unit::fresh(cfg@, source, u, seq, has_exif);
            let root = if u.parent_kind is Video {
                cfg.videos_root@
            } else {
                cfg.images_root@
            };
            &&& s.seq_dir == path::join(
                path::join(root, ".imagesync-staging"@),
                text::decimal(seq as nat),
            )
            &&& s.cfg == cfg@ && s.source == source && s.unit == u && s.has_exif == has_exif
            &&& s.staged.len() == 0 && s.date is None && s.stage is Ready
        }),
{
}

} // verus!
