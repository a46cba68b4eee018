//! Importing the same files once more.

use vstd::prelude::*;
use crate::classify::MediaKind;
use crate::dedupe;
use crate::events::{OutcomeView, PlannedAction, PlannedFileView};
use crate::exiftool;
use crate::index::{self, IndexedFileView};
use crate::metadata;
use crate::path;
use crate::plan::{self, Sorting};
use crate::profiles::ProfileView;
use crate::source::SourceFileView;
use crate::text;
use super::scan::ScanState;
use super::totals;
use super::totals::{Import, Report, UnitTrace};
use super::unit::{ActionView, InputView, StageView, UnitState};
use super::unit_laws;

verus! {

/// Whether the directory of a destination has a regular file of the name, in whatever case,
/// and the size.
pub open spec fn holds_file(
    library: dedupe::Listings,
    dest: Seq<char>,
    name: Seq<char>,
    size: u64,
) -> bool {
    &&& path::parent(dest) is Some
    &&& dedupe::entry_at(library, path::parent(dest)->0, name) matches Some(e) && e.is_file
        && e.size == size
}

/// Whether a file that asks for a place is told what the library says of it, and is there
/// already.
pub open spec fn finds_its_file(library: dedupe::Listings, s: UnitState, e: InputView) -> bool {
    match s.stage {
        StageView::Reserving(j) => e is Reserved ==> {
            let v = dedupe::decide(library, s.dest(j), s.staged_name(j), s.staged[j].size);
            &&& e == InputView::Reserved(v.0, v.1)
            &&& holds_file(library, s.dest(j), s.staged_name(j), s.staged[j].size)
        },
        _ => true,
    }
}

/// Whether every file that asked for a place was there already.
#[verifier::opaque]
pub open spec fn finds_its_files(library: dedupe::Listings, s: UnitState, t: UnitTrace) -> bool
    decreases t.len(),
{
    t.len() == 0 || {
        &&& finds_its_files(library, s, t.drop_last())
        &&& finds_its_file(library, totals::unit_after(s, t.drop_last()), t.last().0)
    }
}

/// Nothing is moved into place, and nothing is about to be reported as copied.
spec fn is_idle(s: UnitState) -> bool {
    match s.stage {
        StageView::Finalizing(_) => false,
        StageView::Moving(_) => false,
        StageView::Discarding(_, _, outcome) => !(outcome is Copied),
        _ => true,
    }
}

/// A step that moves nothing into place and reports nothing as copied.
spec fn stays_idle(step: (UnitState, ActionView)) -> bool {
    &&& is_idle(step.0)
    &&& step.1 matches ActionView::Finish { file: _, outcome } ==> !(outcome is Copied)
}

proof fn lemma_settle_idle(s: UnitState, j: int, cancelled: bool)
    ensures
        stays_idle(s.settle(j, cancelled)),
{
}

proof fn lemma_with_metadata_idle(s: UnitState, meta: exiftool::MetadataView, cancelled: bool)
    ensures
        stays_idle(s.with_metadata(meta, cancelled)),
{
    let dated = UnitState { date: metadata::resolved(s.staged[0].mtime, meta), ..s };
    lemma_settle_idle(dated, 0, cancelled);
}

proof fn lemma_copying_idle(s: UnitState, e: InputView, cancelled: bool)
    requires
        s.stage is Ready || s.stage is Started || s.stage is Announced || s.stage is Resolving
            || s.stage is Copying || s.stage is CopyFailed || s.stage is Orphaned
            || s.stage is OrphanFailed,
    ensures
        stays_idle(s.next(e, cancelled)),
{
    assert forall|t: UnitState, i: int| stays_idle(#[trigger] t.next_copy(i, cancelled)) by {}
    assert forall|t: UnitState, i: int| stays_idle(#[trigger] t.copy_lost(i, cancelled)) by {}
    assert forall|t: UnitState, i: int| stays_idle(#[trigger] t.orphan(i)) by {}
}

proof fn lemma_step_idle(library: dedupe::Listings, s: UnitState, e: InputView, cancelled: bool)
    requires
        is_idle(s),
        finds_its_file(library, s, e),
    ensures
        stays_idle(s.next(e, cancelled)),
{
    match s.stage {
        StageView::Reading => {
            lemma_with_metadata_idle(s, exiftool::no_metadata(), cancelled);
        },
        StageView::AwaitMetadata => {
            if let InputView::Metadata(Ok(meta)) = e {
                lemma_with_metadata_idle(s, meta, cancelled);
            }
        },
        StageView::Warned => {
            lemma_with_metadata_idle(s, exiftool::no_metadata(), cancelled);
        },
        StageView::FallbackWarned => {
            lemma_settle_idle(s, 0, cancelled);
        },
        StageView::Placing(j) => {
            lemma_settle_idle(s, j + 1, cancelled);
        },
        StageView::Settled(j) => {
            lemma_settle_idle(s, j + 1, cancelled);
        },
        StageView::Reserving(_) => {},
        StageView::Discarding(_, _, _) => {},
        StageView::Cleaning => {},
        StageView::Over => {},
        _ => {
            lemma_copying_idle(s, e, cancelled);
        },
    }
}

/// Nothing but a file that was moved into place is about to be reported as copied.
spec fn is_idle_or_moving(s: UnitState) -> bool {
    s.stage matches StageView::Discarding(_, _, outcome) ==> !(outcome is Copied)
}

proof fn lemma_step_idle_unless_reserved(s: UnitState, e: InputView, cancelled: bool)
    requires
        is_idle(s),
        !(s.stage is Discarding),
    ensures
        s.next(e, cancelled).1 matches ActionView::Finish { file: _, outcome } ==> !(
        outcome is Copied),
{
    if !(s.stage is Reserving) {
        lemma_step_idle(Map::empty(), s, e, cancelled);
    }
}

/// Whether a report is of a copied file.
pub open spec fn is_copied(r: Report) -> bool {
    r.outcome is Copied
}

proof fn lemma_trace_idle(library: dedupe::Listings, s: UnitState, t: UnitTrace)
    requires
        s.stage is Ready,
        finds_its_files(library, s, t),
    ensures
        is_idle(totals::unit_after(s, t)),
        forall|i: int|
            0 <= i < totals::unit_outcomes(s, t).len() ==> !is_copied(
                #[trigger] totals::unit_outcomes(s, t)[i],
            ),
    decreases t.len(),
{
    reveal(totals::unit_after);
    reveal(totals::unit_outcomes);
    reveal(finds_its_files);
    if t.len() > 0 {
        let b = totals::unit_after(s, t.drop_last());
        lemma_trace_idle(library, s, t.drop_last());
        lemma_step_idle(library, b, t.last().0, t.last().1);
        let before = totals::unit_outcomes(s, t.drop_last());
        let os = totals::unit_outcomes(s, t);
        assert forall|i: int| 0 <= i < os.len() implies !is_copied(#[trigger] os[i]) by {
            if i < before.len() {
                assert(os[i] == before[i]);
            }
        }
    }
}

/// Whether a file of the source could be found and read.
pub open spec fn went_well(e: InputView) -> bool {
    match e {
        InputView::SourcePath(r) => r is Ok,
        InputView::Copied(r) => r is Ok,
        _ => true,
    }
}

/// Whether every file of the source could be found and read.
pub open spec fn all_went_well(t: UnitTrace) -> bool {
    forall|i: int| 0 <= i < t.len() ==> went_well((#[trigger] t[i]).0)
}

/// Nothing has failed, nothing is moved into place, and nothing but a skipped file is about
/// to be reported.
spec fn is_skipping(s: UnitState) -> bool {
    match s.stage {
        StageView::CopyFailed(_) => false,
        StageView::Orphaned(_) => false,
        StageView::OrphanFailed(_) => false,
        StageView::Finalizing(_) => false,
        StageView::Moving(_) => false,
        StageView::Discarding(_, _, outcome) => outcome is Skipped,
        _ => true,
    }
}

/// A step that reports nothing but skipped files.
spec fn skips(s: UnitState, step: (UnitState, ActionView)) -> bool {
    &&& is_skipping(step.0)
    &&& step.0.cfg == s.cfg && step.0.unit == s.unit
    &&& step.1 matches ActionView::Finish { file: _, outcome } ==> outcome is Skipped
}

proof fn lemma_settle_skips(s: UnitState, j: int)
    ensures
        skips(s, s.settle(j, false)),
{
}

proof fn lemma_with_metadata_skips(s: UnitState, meta: exiftool::MetadataView)
    ensures
        skips(s, s.with_metadata(meta, false)),
{
    let dated = UnitState { date: metadata::resolved(s.staged[0].mtime, meta), ..s };
    lemma_settle_skips(dated, 0);
}

proof fn lemma_copying_skips(s: UnitState, e: InputView)
    requires
        unit_laws::undisturbed(s, e),
        went_well(e),
        s.stage is Ready || s.stage is Started || s.stage is Announced || s.stage is Resolving
            || s.stage is Copying,
    ensures
        skips(s, s.next(e, false)),
{
}

proof fn lemma_step_skips(library: dedupe::Listings, s: UnitState, e: InputView)
    requires
        is_skipping(s),
        unit_laws::undisturbed(s, e),
        went_well(e),
        finds_its_file(library, s, e),
        plan::layout_fault(s.cfg, s.unit.parent_kind) is None,
    ensures
        skips(s, s.next(e, false)),
{
    match s.stage {
        StageView::Reading => {
            lemma_with_metadata_skips(s, exiftool::no_metadata());
        },
        StageView::AwaitMetadata => {
            if let InputView::Metadata(Ok(meta)) = e {
                lemma_with_metadata_skips(s, meta);
            }
        },
        StageView::Warned => {
            lemma_with_metadata_skips(s, exiftool::no_metadata());
        },
        StageView::FallbackWarned => {
            lemma_settle_skips(s, 0);
        },
        StageView::Settled(j) => {
            lemma_settle_skips(s, j + 1);
        },
        StageView::Placing(_) => {},
        StageView::Reserving(_) => {},
        StageView::Discarding(_, _, _) => {},
        StageView::Cleaning => {},
        StageView::Over => {},
        _ => {
            lemma_copying_skips(s, e);
        },
    }
}

proof fn lemma_trace_skips(library: dedupe::Listings, s: UnitState, t: UnitTrace)
    requires
        s.stage is Ready,
        totals::unit_undisturbed(s, t),
        all_went_well(t),
        finds_its_files(library, s, t),
        plan::layout_fault(s.cfg, s.unit.parent_kind) is None,
    ensures
        is_skipping(totals::unit_after(s, t)),
        totals::unit_after(s, t).cfg == s.cfg,
        totals::unit_after(s, t).unit == s.unit,
        forall|i: int|
            0 <= i < totals::unit_outcomes(s, t).len() ==> (#[trigger] totals::unit_outcomes(
                s,
                t,
            )[i]).outcome is Skipped,
    decreases t.len(),
{
    reveal(totals::unit_after);
    reveal(totals::unit_outcomes);
    reveal(totals::unit_undisturbed);
    reveal(finds_its_files);
    if t.len() > 0 {
        let b = totals::unit_after(s, t.drop_last());
        assert forall|i: int| 0 <= i < t.drop_last().len() implies went_well(
            (#[trigger] t.drop_last()[i]).0,
        ) by {
            assert(t.drop_last()[i] == t[i]);
        }
        assert(went_well(t[t.len() - 1].0));
        lemma_trace_skips(library, s, t.drop_last());
        lemma_step_skips(library, b, t.last().0);
        let before = totals::unit_outcomes(s, t.drop_last());
        let os = totals::unit_outcomes(s, t);
        assert forall|i: int| 0 <= i < os.len() implies (#[trigger] os[i]).outcome is Skipped by {
            if i < before.len() {
                assert(os[i] == before[i]);
            }
        }
    }
}

proof fn lemma_tally_without_copies(os: Seq<Report>)
    requires
        os.len() <= u64::MAX,
        forall|i: int| 0 <= i < os.len() ==> !is_copied(#[trigger] os[i]),
    ensures
        totals::tally(os).copied == 0,
    decreases os.len(),
{
    if os.len() > 0 {
        assert(!is_copied(os[os.len() - 1]));
        assert forall|i: int| 0 <= i < os.len() - 1 implies !is_copied(
            #[trigger] os.drop_last()[i],
        ) by {
            assert(os.drop_last()[i] == os[i]);
        }
        lemma_tally_without_copies(os.drop_last());
    }
}

proof fn lemma_tally_of_skips(os: Seq<Report>)
    requires
        os.len() <= u64::MAX,
        forall|i: int| 0 <= i < os.len() ==> (#[trigger] os[i]).outcome is Skipped,
    ensures
        totals::tally(os).copied == 0,
        totals::tally(os).failed == 0,
        totals::tally(os).skipped == os.len(),
    decreases os.len(),
{
    if os.len() > 0 {
        assert(os[os.len() - 1].outcome is Skipped);
        assert forall|i: int| 0 <= i < os.len() - 1 implies (
        #[trigger] os.drop_last()[i]).outcome is Skipped by {
            assert(os.drop_last()[i] == os[i]);
        }
        lemma_tally_of_skips(os.drop_last());
    }
}

/// Whether the library has a file of the name, in whatever case, and the size of a file,
/// outside the staging directories.
pub open spec fn in_library(library: Seq<IndexedFileView>, f: SourceFileView) -> bool {
    exists|k: int|
        0 <= k < library.len() && !(#[trigger] library[k]).staged() && library[k].key() == (
            text::unicode_lower(text::after_last(f.rel_path, '/')),
            f.size,
        )
}

/// An import of files of which the library has all that are imported for their own sake.
pub struct Again {
    pub scan: ScanState,
    pub profile: ProfileView,
    /// The files of the source.
    pub files: Seq<SourceFileView>,
    /// The files of the library.
    pub library: Seq<IndexedFileView>,
    /// The directories of the library.
    pub listings: dedupe::Listings,
    pub import: Import,
}

impl Again {
    pub open spec fn sorting(self) -> Sorting {
        Sorting {
            cfg: self.scan.cfg,
            profile: self.profile,
            source: self.scan.source,
            library: index::indexed(self.library),
        }
    }

    /// The import carries out the plan of the scan to its end; the library has every file
    /// that is imported for its own sake; and every file that asks for a place is told what
    /// is there, and is there already.
    pub open spec fn is_again(self) -> bool {
        &&& self.import.cfg == self.scan.cfg
        &&& self.import.plan == self.scan.plan(self.profile, self.files, self.library)
        &&& self.import.is_complete()
        &&& forall|i: int|
            0 <= i < self.files.len() ==> {
                let kind = self.sorting().kind(#[trigger] self.files[i]);
                kind is Some && !(kind->0 is Sidecar) && self.sorting().keeps(kind->0)
                    ==> in_library(self.library, self.files[i])
            }
        &&& forall|i: int|
            0 <= i < self.import.work.len() ==> finds_its_files(
                self.listings,
                self.import.unit_start(i),
                #[trigger] self.import.work[i],
            )
    }
}

proof fn lemma_no_media(a: Again, n: int)
    requires
        a.is_again(),
        0 <= n <= a.files.len(),
    ensures
        a.sorting().media(a.files.take(n)).len() == 0,
    decreases n,
{
    if n > 0 {
        lemma_no_media(a, n - 1);
        assert(a.files.take(n).drop_last() =~= a.files.take(n - 1));
        let f = a.files[n - 1];
        assert(a.files.take(n).last() == f);
        let kind = a.sorting().kind(f);
        if kind is Some && !(kind->0 is Sidecar) && a.sorting().keeps(kind->0) {
            index::law_index_finds_library_files(a.library, a.sorting().key(f));
        }
    }
}

proof fn lemma_orphans(
    media: Seq<(SourceFileView, MediaKind)>,
    sidecars: Seq<SourceFileView>,
)
    ensures
        forall|i: int|
            0 <= i < plan::orphans(media, sidecars).len() ==> (#[trigger] plan::orphans(
                media,
                sidecars,
            )[i]).parent_kind is Sidecar && plan::orphans(media, sidecars)[i].sidecars.len() == 0,
    decreases sidecars.len(),
{
    if sidecars.len() > 0 {
        lemma_orphans(media, sidecars.drop_last());
        let before = plan::orphans(media, sidecars.drop_last());
        let us = plan::orphans(media, sidecars);
        assert forall|i: int| 0 <= i < us.len() implies (#[trigger] us[i]).parent_kind is Sidecar
            && us[i].sidecars.len() == 0 by {
            if i < before.len() {
                assert(us[i] == before[i]);
            }
        }
    }
}

proof fn lemma_lone_sidecars(a: Again)
    requires
        a.is_again(),
    ensures
        forall|i: int|
            0 <= i < a.import.plan.units.len() ==> (#[trigger] a.import.plan.units[i]).parent_kind
                is Sidecar && a.import.plan.units[i].sidecars.len() == 0,
        forall|i: int|
            0 <= i < a.import.start().rows.len() ==> totals::row_report(
                #[trigger] a.import.start().rows[i],
            ).outcome is Skipped,
{
    lemma_no_media(a, a.files.len() as int);
    assert(a.files.take(a.files.len() as int) =~= a.files);
    let sorting = a.sorting();
    let media = sorting.media(a.files);
    let sides = sorting.sidecars(a.files);
    lemma_orphans(media, sides);
    let us = a.import.plan.units;
    assert(us =~= plan::orphans(media, sides));
    let rows = plan::unit_rows(a.scan.source, us);
    totals::lemma_unit_rows(a.scan.source, us);
    totals::lemma_copies_are_not_decided(rows);
    totals::lemma_decided_concat(rows, sorting.rows(a.files));
    totals::lemma_sorted_rows(sorting, a.files);
    assert(a.import.start().rows =~= sorting.rows(a.files));
}

proof fn lemma_unit_reports_idle(a: Again, n: nat)
    requires
        a.is_again(),
        n <= a.import.work.len(),
    ensures
        forall|i: int|
            0 <= i < a.import.unit_reports(n).len() ==> !is_copied(
                #[trigger] a.import.unit_reports(n)[i],
            ),
    decreases n,
{
    if n > 0 {
        let w = a.import;
        lemma_unit_reports_idle(a, (n - 1) as nat);
        lemma_trace_idle(a.listings, w.unit_start(n - 1), w.work[n - 1]);
        let before = w.unit_reports((n - 1) as nat);
        let os = w.unit_reports(n);
        assert forall|i: int| 0 <= i < os.len() implies !is_copied(#[trigger] os[i]) by {
            if i < before.len() {
                assert(os[i] == before[i]);
            } else {
                assert(os[i] == totals::unit_outcomes(w.unit_start(n - 1), w.work[n - 1])[i
                    - before.len()]);
            }
        }
    }
}

proof fn lemma_unit_reports_skip(a: Again, n: nat)
    requires
        a.is_again(),
        a.import.undisturbed(),
        n <= a.import.work.len(),
        a.import.work.len() <= a.import.plan.units.len(),
        forall|i: int|
            0 <= i < a.import.work.len() ==> (#[trigger] a.import.begun()[i]).unit
                == a.import.plan.units[i],
        forall|i: int| 0 <= i < a.import.work.len() ==> all_went_well(#[trigger] a.import.work[i]),
        plan::layout_fault(a.import.cfg, MediaKind::Sidecar) is None,
    ensures
        forall|i: int|
            0 <= i < a.import.unit_reports(n).len() ==> (#[trigger] a.import.unit_reports(
                n,
            )[i]).outcome is Skipped,
    decreases n,
{
    if n > 0 {
        let w = a.import;
        lemma_lone_sidecars(a);
        lemma_unit_reports_skip(a, (n - 1) as nat);
        assert(w.begun()[n - 1].unit == w.plan.units[n - 1]);
        assert(w.unit_start(n - 1).unit.parent_kind == MediaKind::Sidecar);
        assert(all_went_well(w.work[n - 1]));
        lemma_trace_skips(a.listings, w.unit_start(n - 1), w.work[n - 1]);
        let before = w.unit_reports((n - 1) as nat);
        let os = w.unit_reports(n);
        assert forall|i: int| 0 <= i < os.len() implies (#[trigger] os[i]).outcome is Skipped by {
            if i < before.len() {
                assert(os[i] == before[i]);
            } else {
                assert(os[i] == totals::unit_outcomes(w.unit_start(n - 1), w.work[n - 1])[i
                    - before.len()]);
            }
        }
    }
}

proof fn lemma_counted_is_reported(w: Import, i: int) -> (k: int)
    requires
        w.counted.to_multiset() == w.reports().to_multiset(),
        0 <= i < w.counted.len(),
    ensures
        0 <= k < w.reports().len(),
        w.reports()[k] == w.counted[i],
{
    let x = w.counted[i];
    assert(w.counted.contains(x));
    vstd::seq_lib::to_multiset_contains(w.counted, x);
    vstd::seq_lib::to_multiset_contains(w.reports(), x);
    choose|k: int| 0 <= k < w.reports().len() && w.reports()[k] == x
}

/// Importing the same files again adds nothing to the library: if the library has every
/// file that is imported for its own sake, and every sidecar has its place taken by a file
/// of its name and size, then only lone sidecars are looked at and nothing is copied,
/// however the import goes. Where nobody disturbs it and the source can be read, nothing
/// fails either: every file is skipped.
pub proof fn law_second_import_copies_nothing(a: Again)
    requires
        a.is_again(),
        a.import.plan.items.len() <= usize::MAX,
    ensures
        forall|i: int|
            0 <= i < a.import.plan.units.len() ==> (#[trigger] a.import.plan.units[i]).parent_kind
                is Sidecar && a.import.plan.units[i].sidecars.len() == 0,
        totals::tally(a.import.counted).copied == 0,
        a.import.undisturbed() && plan::layout_fault(a.import.cfg, MediaKind::Sidecar) is None && (
        forall|i: int| 0 <= i < a.import.work.len() ==> all_went_well(#[trigger] a.import.work[i]))
            ==> totals::tally(a.import.counted).failed == 0 && totals::tally(
            a.import.counted,
        ).skipped == a.import.plan.items.len(),
{
    let w = a.import;
    totals::law_scanned_plan_is_covered(a.scan, a.profile, a.files, a.library);
    totals::law_counts_add_up(w, false, true);
    totals::lemma_files_in_take(w.plan.units, w.plan.units.len() as int);
    totals::lemma_decided_len(w.plan.items);
    totals::law_run_covers_the_plan(w.cfg, w.plan, w.run);
    lemma_lone_sidecars(a);
    totals::lemma_run_reports(w.start(), w.run);
    lemma_unit_reports_idle(a, w.work.len());
    let own = totals::run_outcomes(w.start(), w.run);
    let theirs = w.unit_reports(w.work.len());
    vstd::seq_lib::to_multiset_len(w.counted);
    vstd::seq_lib::to_multiset_len(w.reports());
    totals::lemma_reports_len(w);
    assert forall|i: int| 0 <= i < w.counted.len() implies !is_copied(#[trigger] w.counted[i]) by {
        let k = lemma_counted_is_reported(w, i);
        if k < own.len() {
            assert(w.reports()[k] == own[k]);
        } else {
            assert(w.reports()[k] == theirs[k - own.len()]);
        }
    }
    lemma_tally_without_copies(w.counted);
    if w.undisturbed() && plan::layout_fault(w.cfg, MediaKind::Sidecar) is None && (forall|i: int|
        0 <= i < w.work.len() ==> all_went_well(#[trigger] w.work[i])) {
        lemma_unit_reports_skip(a, w.work.len());
        assert forall|i: int| 0 <= i < w.counted.len() implies (
        #[trigger] w.counted[i]).outcome is Skipped by {
            let k = lemma_counted_is_reported(w, i);
            if k < own.len() {
                assert(w.reports()[k] == own[k]);
            } else {
                assert(w.reports()[k] == theirs[k - own.len()]);
            }
        }
        lemma_tally_of_skips(w.counted);
    }
}

/// A file is skipped because it is there exactly if its place holds a regular file of its
/// name and size.
pub proof fn law_skipped_exactly_where_held(
    library: dedupe::Listings,
    dest: Seq<char>,
    name: Seq<char>,
    size: u64,
)
    ensures
        dedupe::decide(library, dest, name, size).0 == PlannedAction::SkipExists <==> holds_file(
            library,
            dest,
            name,
            size,
        ),
{
}

/// A file whose own date leads to a folder that has a regular file of its name and size,
/// such as a sidecar that is imported again, is not moved: it is told that it is there, the
/// copy is removed, and it is reported as skipped.
pub proof fn law_held_file_is_skipped(
    s: UnitState,
    j: int,
    library: dedupe::Listings,
    cancelled: bool,
)
    requires
        s.stage == StageView::Reserving(j),
        holds_file(library, s.dest(j), s.staged_name(j), s.staged[j].size),
    ensures
        ({
            let v = dedupe::decide(library, s.dest(j), s.staged_name(j), s.staged[j].size);
            let (n, first) = s.next(InputView::Reserved(v.0, v.1), cancelled);
            let (end, told) = n.next(InputView::Removed, cancelled);
            &&& v.0 == PlannedAction::SkipExists
            &&& first == (ActionView::Remove { path: s.staged[j].staged_path })
            &&& told matches ActionView::Finish { file, outcome } && file.action
                == PlannedAction::SkipExists && file.dest_path == Some(s.dest(j))
                && file.source_rel_path == s.staged[j].rel_path && outcome is Skipped
        }),
{
}

proof fn lemma_copies_are_not_discarded(s: UnitState, e: InputView, cancelled: bool)
    ensures
        is_idle_or_moving(s.next(e, cancelled).0),
{
    match s.stage {
        StageView::Finalizing(j) => {
            lemma_settle_idle(s, j + 1, cancelled);
        },
        StageView::Moving(_) => {},
        StageView::Reserving(_) => {},
        StageView::Discarding(_, _, _) => {},
        _ => {
            lemma_step_idle(Map::empty(), s, e, cancelled);
        },
    }
}

proof fn lemma_trace_moves(s: UnitState, t: UnitTrace)
    requires
        s.stage is Ready,
    ensures
        is_idle_or_moving(totals::unit_after(s, t)),
{
    reveal(totals::unit_after);
    if t.len() > 0 {
        lemma_copies_are_not_discarded(
            totals::unit_after(s, t.drop_last()),
            t.last().0,
            t.last().1,
        );
    }
}

/// A file is reported as copied only once it was moved, under its own name and with its own
/// size, to a place below the root of its kind; and a library that has a file of that name
/// and size there has the file, so that it is not imported for its own sake again.
pub proof fn law_copied_file_is_found_again(
    start: UnitState,
    t: UnitTrace,
    e: InputView,
    cancelled: bool,
    file: PlannedFileView,
    bytes: u64,
    library: Seq<IndexedFileView>,
    k: int,
)
    requires
        start.stage is Ready,
        totals::unit_after(start, t).next(e, cancelled).1 == (ActionView::Finish {
            file,
            outcome: OutcomeView::Copied { bytes },
        }),
        plan::layout_fault(
            totals::unit_after(start, t).cfg,
            totals::unit_after(start, t).unit.parent_kind,
        ) is None,
        plan::is_plain_name(text::after_last(file.source_rel_path, '/')),
        text::after_last(file.source_rel_path, '/') != seq!['.', '.'],
        0 <= k < library.len(),
        !library[k].staged(),
        path::file_name(file.dest_path->0) == Some(library[k].name),
        library[k].size == bytes,
    ensures
        ({
            let s = totals::unit_after(start, t);
            &&& s.stage is Moving && e is Moved && e->Moved_0 is Ok
            &&& file.dest_path == Some(s.dest(s.stage->Moving_0))
            &&& path::is_below(file.dest_path->0, plan::root_for(s.cfg, s.unit.parent_kind))
            &&& path::file_name(file.dest_path->0) == Some(
                text::after_last(file.source_rel_path, '/'),
            )
            &&& bytes == file.source_size
        }),
        forall|f: SourceFileView|
            f.rel_path == file.source_rel_path && f.size == file.source_size
                ==> #[trigger] in_library(library, f),
{
    let s = totals::unit_after(start, t);
    lemma_trace_moves(start, t);
    match s.stage {
        StageView::Moving(j) => {
            let name = text::after_last(file.source_rel_path, '/');
            let dir = plan::dest_dir(s.cfg, s.unit.parent_kind, s.date->0.datetime);
            path::law_file_name_of_join(dir, name);
            plan::law_destination_stays_under_root(
                s.cfg,
                s.unit.parent_kind,
                s.date->0.datetime,
                name,
            );
            assert(library[k].key() == (text::unicode_lower(name), bytes));
        },
        StageView::Finalizing(j) => {
            lemma_settle_idle(s, j + 1, cancelled);
        },
        StageView::Discarding(_, _, _) => {},
        _ => {
            lemma_step_idle_unless_reserved(s, e, cancelled);
        },
    }
}

} // verus!
