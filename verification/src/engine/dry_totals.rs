//! What the outcomes of a whole dry run come to.

use vstd::prelude::*;
use vstd::multiset::Multiset;
use crate::classify::MediaKind;
use crate::config::EngineConfigView;
use crate::dedupe;
use crate::events::{EventView, PlannedFileView, SyncSummary};
use crate::plan::{self, PlanView, ScannedView, UnitView};
use crate::source::SourceFileView;
use super::dry;
use super::dry::{DryActionView, DryInput, DryStage, DryState};
use super::totals;
use super::totals::Report;

verus! {

/// What a dry run was told, step by step, each time with whether it was to stop.
pub type DryTrace = Seq<(DryInput, bool)>;

/// The state after some steps.
pub open spec fn dry_after(s: DryState, t: DryTrace) -> DryState
    decreases t.len(),
{
    if t.len() == 0 {
        s
    } else {
        dry_after(s, t.drop_last()).next(t.last().0, t.last().1).0
    }
}

/// The action of the last step.
pub open spec fn dry_action(s: DryState, t: DryTrace) -> DryActionView
    recommends
        t.len() > 0,
{
    dry_after(s, t.drop_last()).next(t.last().0, t.last().1).1
}

/// The outcomes that were reported in some steps.
pub open spec fn dry_outcomes(s: DryState, t: DryTrace) -> Seq<Report>
    decreases t.len(),
{
    if t.len() == 0 {
        Seq::empty()
    } else {
        let before = dry_outcomes(s, t.drop_last());
        match dry_action(s, t) {
            DryActionView::Finish { file, outcome } => before.push(
                Report { file: file.source_rel_path, outcome },
            ),
            _ => before,
        }
    }
}

/// Metadata always came for as many files as it was asked for.
pub open spec fn dry_fits(s: DryState, t: DryTrace) -> bool
    decreases t.len(),
{
    t.len() == 0 || dry_fits(s, t.drop_last()) && dry_after(s, t.drop_last()).fits(t.last().0)
}

/// Whether a step was told what it had asked for, and the listener stayed.
pub open spec fn dry_goes_on(s: DryState, e: DryInput) -> bool {
    &&& e matches DryInput::Sent(ok) ==> ok
    &&& match s.stage {
        DryStage::Ready => e is Start,
        DryStage::Announcing(_) => e is Sent,
        DryStage::Reporting(_) => e is Finished,
        DryStage::Resolving(_) => e is SourcePath,
        DryStage::Spawning => e is Exif,
        DryStage::Reading => e is Batch,
        DryStage::Counted => e is Sent,
        DryStage::Closing(_) => e is ShutDown,
        DryStage::Listing => e is Listings,
        DryStage::Showing(_) => e is Sent,
        DryStage::Shown(_) => e is Finished,
        DryStage::Totalling => e is Totals,
        DryStage::Finishing(_) => e is Sent,
        DryStage::Over => true,
    }
}

/// Nobody cancelled the run, its listener stayed, and every step was told what it had asked
/// for.
pub open spec fn dry_undisturbed(s: DryState, t: DryTrace) -> bool
    decreases t.len(),
{
    t.len() == 0 || {
        &&& dry_undisturbed(s, t.drop_last())
        &&& !t.last().1
        &&& dry_goes_on(dry_after(s, t.drop_last()), t.last().0)
    }
}

/// How many files are behind the run.
spec fn files_done(s: DryState) -> int {
    match s.stage {
        DryStage::Ready => 0,
        DryStage::Announcing(i) => i,
        DryStage::Reporting(i) => i + 1,
        DryStage::Showing(i) => s.rows.len() + i,
        DryStage::Shown(i) => s.rows.len() + i + 1,
        DryStage::Totalling => (s.rows.len() + s.files.len()) as int,
        DryStage::Finishing(_) => (s.rows.len() + s.files.len()) as int,
        DryStage::Over => (s.rows.len() + s.files.len()) as int,
        _ => s.rows.len() as int,
    }
}

/// The rows that are shown are those of the files, or of some of them.
spec fn shows_files(s: DryState) -> bool {
    s.stage is Showing || s.stage is Shown ==> s.items.len() <= s.files.len()
}

/// What holds of a run as long as nothing disturbs it.
spec fn is_on_its_way(s: DryState) -> bool {
    match s.stage {
        DryStage::Closing(why) => !(why is Stop) && (why is Done ==> s.dates.len() == s.files.len()),
        DryStage::Listing => s.dates.len() == s.files.len(),
        DryStage::Showing(_) => planned_all(s),
        DryStage::Shown(_) => planned_all(s),
        _ => true,
    }
}

/// The files of a list with kinds.
spec fn listed_files(fs: Seq<(SourceFileView, MediaKind)>) -> Multiset<Seq<char>>
    decreases fs.len(),
{
    if fs.len() == 0 {
        Multiset::empty()
    } else {
        listed_files(fs.drop_last()).insert(fs.last().0.rel_path)
    }
}

/// There is one row for each file.
spec fn planned_all(s: DryState) -> bool {
    &&& s.items.len() == s.files.len()
    &&& totals::planned_files(s.items) == listed_files(s.files)
}

proof fn lemma_classes(ss: Seq<ScannedView>)
    ensures
        plan::of_class(ss, false).len() + plan::of_class(ss, true).len() == ss.len(),
    decreases ss.len(),
{
    if ss.len() > 0 {
        lemma_classes(ss.drop_last());
    }
}

/// The files of scanned files.
spec fn scanned_files(ss: Seq<ScannedView>) -> Multiset<Seq<char>>
    decreases ss.len(),
{
    if ss.len() == 0 {
        Multiset::empty()
    } else {
        scanned_files(ss.drop_last()).insert(ss.last().file.rel_path)
    }
}

proof fn lemma_class_files(ss: Seq<ScannedView>)
    ensures
        scanned_files(plan::of_class(ss, false)).add(scanned_files(plan::of_class(ss, true)))
            == scanned_files(ss),
    decreases ss.len(),
{
    if ss.len() > 0 {
        let t = ss.drop_last();
        lemma_class_files(t);
        let a = plan::of_class(ss, false);
        let b = plan::of_class(ss, true);
        if ss.last().kind is Sidecar {
            assert(b.drop_last() =~= plan::of_class(t, true));
        } else {
            assert(a.drop_last() =~= plan::of_class(t, false));
        }
        assert(scanned_files(a).add(scanned_files(b)) =~= scanned_files(ss));
    } else {
        assert(scanned_files(plan::of_class(ss, false)).add(
            scanned_files(plan::of_class(ss, true)),
        ) =~= scanned_files(ss));
    }
}

proof fn lemma_rows_files(rows: Seq<PlannedFileView>, ss: Seq<ScannedView>)
    requires
        rows.len() == ss.len(),
        forall|i: int|
            0 <= i < rows.len() ==> (#[trigger] rows[i]).source_rel_path == ss[i].file.rel_path,
    ensures
        totals::planned_files(rows) == scanned_files(ss),
    decreases rows.len(),
{
    if rows.len() > 0 {
        let r = rows.drop_last();
        assert forall|i: int| 0 <= i < r.len() implies (#[trigger] r[i]).source_rel_path
            == ss.drop_last()[i].file.rel_path by {
            assert(r[i] == rows[i]);
        }
        lemma_rows_files(r, ss.drop_last());
        assert(rows[rows.len() - 1].source_rel_path == ss[ss.len() - 1].file.rel_path);
    }
}

proof fn lemma_scanned_is_listed(ss: Seq<ScannedView>, fs: Seq<(SourceFileView, MediaKind)>)
    requires
        ss.len() == fs.len(),
        forall|i: int| 0 <= i < ss.len() ==> (#[trigger] ss[i]).file == fs[i].0,
    ensures
        scanned_files(ss) == listed_files(fs),
    decreases ss.len(),
{
    if ss.len() > 0 {
        assert(ss[ss.len() - 1].file == fs[fs.len() - 1].0);
        assert forall|i: int| 0 <= i < ss.len() - 1 implies (#[trigger] ss.drop_last()[i]).file
            == fs.drop_last()[i].0 by {
            assert(ss.drop_last()[i] == ss[i]);
        }
        lemma_scanned_is_listed(ss.drop_last(), fs.drop_last());
    }
}

proof fn lemma_full_rows(s: DryState, c: dedupe::Listings)
    requires
        s.dates.len() <= s.files.len(),
    ensures
        s.full_rows(c).len() == s.dates.len(),
        s.dates.len() == s.files.len() && plan::first_error(s.full_rows(c)) == s.full_rows(
            c,
        ).len() ==> totals::planned_files(plan::good_rows(s.full_rows(c))) == listed_files(s.files),
{
    let ss = s.scanned();
    lemma_classes(ss);
    if s.dates.len() == s.files.len() && plan::first_error(s.full_rows(c)) == s.full_rows(c).len() {
        let rows = s.full_rows(c);
        let good = plan::good_rows(rows);
        let media = plan::of_class(ss, false);
        let sides = plan::of_class(ss, true);
        plan::lemma_first_error(rows);
        let a = good.take(media.len() as int);
        let b = good.skip(media.len() as int);
        assert forall|i: int| 0 <= i < a.len() implies (#[trigger] a[i]).source_rel_path
            == media[i].file.rel_path by {
            assert(rows[i] is Ok);
            assert(rows[i] == plan::media_row(s.cfg, c, media[i]));
        }
        assert forall|i: int| 0 <= i < b.len() implies (#[trigger] b[i]).source_rel_path
            == sides[i].file.rel_path by {
            assert(rows[media.len() + i] is Ok);
            assert(rows[media.len() + i] == plan::side_row(s.cfg, c, media, sides[i]));
        }
        lemma_rows_files(a, media);
        lemma_rows_files(b, sides);
        assert(good =~= a + b);
        totals::lemma_planned_concat(a, b);
        lemma_class_files(ss);
        lemma_scanned_is_listed(ss, s.files);
    }
}

/// A number that is one where something holds.
spec fn one_if(b: bool) -> int {
    if b {
        1
    } else {
        0
    }
}

proof fn lemma_dry_step(s: DryState, e: DryInput, cancelled: bool)
    requires
        s.wf(),
        s.fits(e),
        shows_files(s),
    ensures
        ({
            let (n, a) = s.next(e, cancelled);
            &&& n.wf()
            &&& shows_files(n)
            &&& n.rows == s.rows && n.files == s.files && n.total == s.total
            &&& files_done(s) + one_if(a is Finish) <= files_done(n) <= s.rows.len() + s.files.len()
            &&& dry_goes_on(s, e) && !cancelled && is_on_its_way(s) && !(n.stage is Over)
                ==> is_on_its_way(n) && files_done(n) == files_done(s) + one_if(a is Finish)
        }),
{
    s.lemma_next_wf(e, cancelled);
    if let DryInput::Listings(c) = e {
        lemma_full_rows(s, c);
        plan::lemma_first_error(s.full_rows(c));
    }
}

/// The files behind a run that nothing has disturbed.
spec fn behind(s: DryState) -> Multiset<Seq<char>> {
    match s.stage {
        DryStage::Ready => Multiset::empty(),
        DryStage::Announcing(i) => totals::planned_files(s.rows.take(i)),
        DryStage::Reporting(i) => totals::planned_files(s.rows.take(i + 1)),
        DryStage::Showing(i) => totals::planned_files(s.rows).add(
            totals::planned_files(s.items.take(i)),
        ),
        DryStage::Shown(i) => totals::planned_files(s.rows).add(
            totals::planned_files(s.items.take(i + 1)),
        ),
        DryStage::Totalling => totals::planned_files(s.rows).add(listed_files(s.files)),
        DryStage::Finishing(_) => totals::planned_files(s.rows).add(listed_files(s.files)),
        _ => totals::planned_files(s.rows),
    }
}

/// The file that an action reports.
spec fn file_of(a: DryActionView) -> Multiset<Seq<char>> {
    match a {
        DryActionView::Finish { file, outcome: _ } => Multiset::empty().insert(
            file.source_rel_path,
        ),
        _ => Multiset::empty(),
    }
}

proof fn lemma_take_one_more(rows: Seq<PlannedFileView>, i: int)
    requires
        0 <= i < rows.len(),
    ensures
        totals::planned_files(rows.take(i + 1)) == totals::planned_files(rows.take(i)).insert(
            rows[i].source_rel_path,
        ),
{
    assert(rows.take(i + 1).drop_last() =~= rows.take(i));
}

proof fn lemma_nothing_behind(rows: Seq<PlannedFileView>)
    ensures
        totals::planned_files(rows.take(0)) == Multiset::<Seq<char>>::empty(),
        rows.take(rows.len() as int) == rows,
{
    assert(rows.take(rows.len() as int) =~= rows);
}

proof fn lemma_decided_behind(s: DryState, i: int)
    requires
        0 <= i <= s.rows.len(),
    ensures
        behind(s.decided(i, false).0) == totals::planned_files(s.rows.take(i)),
{
    lemma_nothing_behind(s.rows);
}

proof fn lemma_show_behind(s: DryState, i: int)
    requires
        0 <= i <= s.items.len(),
        planned_all(s),
    ensures
        behind(s.show(i, false).0) == totals::planned_files(s.rows).add(
            totals::planned_files(s.items.take(i)),
        ),
{
    lemma_nothing_behind(s.items);
}

proof fn lemma_dry_step_files(s: DryState, e: DryInput)
    requires
        s.wf(),
        s.fits(e),
        is_on_its_way(s),
        dry_goes_on(s, e),
        !(s.next(e, false).0.stage is Over),
    ensures
        behind(s.next(e, false).0) == behind(s).add(file_of(s.next(e, false).1)),
{
    let (n, a) = s.next(e, false);
    match s.stage {
        DryStage::Ready => {
            lemma_decided_behind(s, 0);
            lemma_nothing_behind(s.rows);
        },
        DryStage::Announcing(i) => {
            lemma_take_one_more(s.rows, i);
        },
        DryStage::Reporting(i) => {
            lemma_decided_behind(s, i + 1);
        },
        DryStage::Listing => {
            if let DryInput::Listings(c) = e {
                lemma_full_rows(s, c);
                plan::lemma_first_error(s.full_rows(c));
                let shown = DryState { items: plan::good_rows(s.full_rows(c)), ..s };
                lemma_show_behind(shown, 0);
                lemma_nothing_behind(shown.items);
            }
        },
        DryStage::Showing(i) => {
            lemma_take_one_more(s.items, i);
        },
        DryStage::Shown(i) => {
            lemma_show_behind(s, i + 1);
        },
        _ => {},
    }
    assert(behind(n) =~= behind(s).add(file_of(a)));
}

proof fn lemma_dry_trace(s: DryState, t: DryTrace)
    requires
        s.wf(),
        s.stage is Ready,
        dry_fits(s, t),
    ensures
        ({
            let n = dry_after(s, t);
            let os = dry_outcomes(s, t);
            &&& n.wf() && shows_files(n)
            &&& n.rows == s.rows && n.files == s.files && n.total == s.total
            &&& os.len() <= files_done(n) <= s.rows.len() + s.files.len()
            &&& dry_undisturbed(s, t) && !(n.stage is Over) ==> is_on_its_way(n) && os.len()
                == files_done(n) && totals::reported_files(os) == behind(n)
        }),
    decreases t.len(),
{
    if t.len() > 0 {
        let b = dry_after(s, t.drop_last());
        let before = dry_outcomes(s, t.drop_last());
        let os = dry_outcomes(s, t);
        lemma_dry_trace(s, t.drop_last());
        lemma_dry_step(b, t.last().0, t.last().1);
        let n = dry_after(s, t);
        if dry_undisturbed(s, t) && !(n.stage is Over) {
            lemma_dry_step_files(b, t.last().0);
            if dry_action(s, t) is Finish {
                assert(os.drop_last() =~= before);
            }
            assert(totals::reported_files(os) =~= behind(n));
        }
    }
}

proof fn lemma_flat_sidecars(u: UnitView, i: int)
    requires
        1 <= i <= u.sidecars.len() + 1,
    ensures
        listed_files(
            u.sidecars.skip(i - 1).map_values(|f: SourceFileView| (f, MediaKind::Sidecar)),
        ) == totals::files_from(u, i),
    decreases u.sidecars.len() + 1 - i,
{
    let fs = u.sidecars.skip(i - 1).map_values(|f: SourceFileView| (f, MediaKind::Sidecar));
    if i <= u.sidecars.len() {
        lemma_flat_sidecars(u, i + 1);
        let head = seq![(u.sidecars[i - 1], MediaKind::Sidecar)];
        let tail = u.sidecars.skip(i).map_values(|f: SourceFileView| (f, MediaKind::Sidecar));
        assert(fs =~= head + tail);
        lemma_listed_concat(head, tail);
        assert(head.drop_last() =~= Seq::<(SourceFileView, MediaKind)>::empty());
        assert(listed_files(head.drop_last()) =~= Multiset::empty());
        assert(listed_files(fs) =~= totals::files_from(u, i));
    }
}

proof fn lemma_listed_concat(
    a: Seq<(SourceFileView, MediaKind)>,
    b: Seq<(SourceFileView, MediaKind)>,
)
    ensures
        listed_files(a + b) == listed_files(a).add(listed_files(b)),
    decreases b.len(),
{
    if b.len() == 0 {
        assert(a + b =~= a);
        assert(listed_files(a).add(listed_files(b)) =~= listed_files(a));
    } else {
        lemma_listed_concat(a, b.drop_last());
        assert((a + b).drop_last() =~= a + b.drop_last());
        assert(listed_files(a + b) =~= listed_files(a).add(listed_files(b)));
    }
}

proof fn lemma_flat(us: Seq<UnitView>)
    ensures
        dry::flat(us).len() == totals::files_in(us),
        listed_files(dry::flat(us)) == totals::unit_files(us),
    decreases us.len(),
{
    if us.len() > 0 {
        let u = us.last();
        let before = dry::flat(us.drop_last());
        let first = before.push((u.parent, u.parent_kind));
        let sides = u.sidecars.map_values(|f: SourceFileView| (f, MediaKind::Sidecar));
        lemma_flat(us.drop_last());
        lemma_flat_sidecars(u, 1);
        assert(u.sidecars.skip(0) =~= u.sidecars);
        lemma_listed_concat(first, sides);
        assert(first.drop_last() =~= before);
        assert(listed_files(dry::flat(us)) =~= totals::unit_files(us));
    }
}

/// The counts of a dry run never exceed the number of the planned files, and where nobody
/// disturbs it they add up to that number: every planned file gets exactly one outcome. The
/// summary with these counts is the last event and what the run completes with.
pub proof fn law_dry_counts_add_up(
    cfg: EngineConfigView,
    source: Seq<char>,
    p: PlanView,
    t: DryTrace,
    cancelled: bool,
    listening: bool,
)
    requires
        totals::is_covered(p),
        p.items.len() <= usize::MAX,
        dry_fits(dry::fresh(cfg, source, p), t),
        dry_after(dry::fresh(cfg, source, p), t).stage is Totalling,
    ensures
        ({
            let start = dry::fresh(cfg, source, p);
            let s = dry_after(start, t);
            let os = dry_outcomes(start, t);
            let c = totals::tally(os);
            let summary = SyncSummary {
                total: p.items.len() as u64,
                copied: c.copied,
                skipped: c.skipped,
                failed: c.failed,
                cancelled,
            };
            let (n, told) = s.next(DryInput::Totals(c), cancelled);
            let (end, last) = n.next(DryInput::Sent(listening), cancelled);
            &&& summary.total == p.items.len()
            &&& summary.copied + summary.skipped + summary.failed <= summary.total
            &&& dry_undisturbed(start, t) ==> summary.copied + summary.skipped + summary.failed
                == summary.total && totals::reported_files(os) == totals::planned_files(p.items)
            &&& told == DryActionView::Emit(EventView::ExecutionFinished { summary })
            &&& last == DryActionView::Complete(summary)
            &&& end.stage is Over
        }),
{
    let start = dry::fresh(cfg, source, p);
    lemma_flat(p.units);
    totals::lemma_decided_len(p.items);
    lemma_dry_trace(start, t);
    totals::lemma_tally(dry_outcomes(start, t));
}

} // verus!
