//! Importing the same card twice.

use vstd::prelude::*;
use crate::classify::MediaKind;
use crate::dedupe;
use crate::events::PlannedAction;
use crate::exiftool;
use crate::index::{self, IndexedFileView};
use crate::metadata;
use crate::path;
use crate::plan::{self, Sorting};
use crate::source::SourceFileView;
use crate::text;
use super::reimport;
use super::reimport::Again;
use super::scan::ScanState;
use super::totals;
use super::totals::{Import, Report, UnitTrace};
use super::unit::{ActionView, InputView, StageView, StagedView, UnitState};
use super::unit_laws;

verus! {

/// Where a file went, its name there and its size.
pub struct Place {
    pub dest: Seq<char>,
    pub name: Seq<char>,
    pub size: u64,
}

/// The place that an action reports, where it reports a file as copied or as being there.
pub open spec fn place_of(a: ActionView) -> Option<Place> {
    match a {
        ActionView::Finish { file, outcome } => if file.dest_path is Some && (outcome is Copied
            || file.action == PlannedAction::SkipExists) {
            Some(
                Place {
                    dest: file.dest_path->0,
                    name: text::after_last(file.source_rel_path, '/'),
                    size: file.source_size,
                },
            )
        } else {
            None
        },
        _ => None,
    }
}

/// Whether a file of a unit was reported in a place, as copied or as being there.
#[verifier::opaque]
pub open spec fn has_placed(s: UnitState, t: UnitTrace, place: Place) -> bool
    decreases t.len(),
{
    t.len() > 0 && (has_placed(s, t.drop_last(), place) || place_of(
        totals::unit_after(s, t.drop_last()).next(t.last().0, t.last().1).1,
    ) == Some(place))
}

/// Whether a place has its file.
pub open spec fn is_held(library: dedupe::Listings, place: Place) -> bool {
    reimport::holds_file(library, place.dest, place.name, place.size)
}

/// Whether the regular files that some listings show are there later, with the same sizes.
pub open spec fn still_there(before: dedupe::Listings, after: dedupe::Listings) -> bool {
    forall|dir: Seq<char>, name: Seq<char>|
        {
            let a = #[trigger] dedupe::entry_at(before, dir, name);
            let b = dedupe::entry_at(after, dir, name);
            a is Some && a->0.is_file ==> b is Some && b->0.is_file && b->0.size == a->0.size
        }
}

/// What a step leaves in the library: a file that asked for a place was told what some
/// listings say, and what these show is still there; a file that is reported as copied is in
/// its place.
pub open spec fn step_leaves(
    after: dedupe::Listings,
    s: UnitState,
    e: InputView,
    cancelled: bool,
) -> bool {
    &&& s.stage matches StageView::Reserving(j) ==> (e matches InputView::Reserved(action, reason)
        ==> exists|c: dedupe::Listings| #[trigger]
        still_there(c, after) && (action, reason) == dedupe::decide(
            c,
            s.dest(j),
            s.staged_name(j),
            s.staged[j].size,
        ))
    &&& s.next(e, cancelled).1 matches ActionView::Finish { file, outcome } ==> (
    outcome is Copied ==> (place_of(s.next(e, cancelled).1) matches Some(place) ==> is_held(
        after,
        place,
    )))
}

/// What the work on a unit leaves in the library.
#[verifier::opaque]
pub open spec fn unit_leaves(after: dedupe::Listings, s: UnitState, t: UnitTrace) -> bool
    decreases t.len(),
{
    t.len() == 0 || {
        &&& unit_leaves(after, s, t.drop_last())
        &&& step_leaves(after, totals::unit_after(s, t.drop_last()), t.last().0, t.last().1)
    }
}

/// Whether an action leaves a file out because it has no date.
pub open spec fn is_undated(a: ActionView) -> bool {
    a matches ActionView::Finish { file, outcome } && file.action == PlannedAction::SkipNoDate
}

/// Whether no file of a unit was left out for want of a date.
#[verifier::opaque]
pub open spec fn unit_is_dated(s: UnitState, t: UnitTrace) -> bool
    decreases t.len(),
{
    t.len() == 0 || {
        &&& unit_is_dated(s, t.drop_last())
        &&& !is_undated(totals::unit_after(s, t.drop_last()).next(t.last().0, t.last().1).1)
    }
}

/// A file that is about to be reported as being there is there, and none that was not moved
/// is about to be reported as copied.
spec fn discards_what_is_held(after: dedupe::Listings, s: UnitState) -> bool {
    match s.stage {
        StageView::Discarding(j, file, outcome) => {
            &&& !(outcome is Copied)
            &&& place_of(ActionView::Finish { file, outcome }) matches Some(place) ==> is_held(
                after,
                place,
            )
        },
        _ => true,
    }
}

/// A step after which that still holds, and which reports no place but one that is held.
spec fn places_what_is_held(after: dedupe::Listings, step: (UnitState, ActionView)) -> bool {
    &&& discards_what_is_held(after, step.0)
    &&& place_of(step.1) matches Some(place) ==> is_held(after, place)
}

proof fn lemma_settle_places(after: dedupe::Listings, s: UnitState, j: int, cancelled: bool)
    ensures
        places_what_is_held(after, s.settle(j, cancelled)),
{
}

proof fn lemma_with_metadata_places(
    after: dedupe::Listings,
    s: UnitState,
    meta: exiftool::MetadataView,
    cancelled: bool,
)
    ensures
        places_what_is_held(after, s.with_metadata(meta, cancelled)),
{
    let dated = UnitState { date: metadata::resolved(s.staged[0].mtime, meta), ..s };
    lemma_settle_places(after, dated, 0, cancelled);
}

proof fn lemma_copying_places(
    after: dedupe::Listings,
    s: UnitState,
    e: InputView,
    cancelled: bool,
)
    requires
        s.stage is Ready || s.stage is Started || s.stage is Announced || s.stage is Resolving
            || s.stage is Copying || s.stage is CopyFailed || s.stage is Orphaned
            || s.stage is OrphanFailed,
    ensures
        places_what_is_held(after, s.next(e, cancelled)),
{
    assert forall|t: UnitState, i: int|
        places_what_is_held(after, #[trigger] t.next_copy(i, cancelled)) by {}
    assert forall|t: UnitState, i: int|
        places_what_is_held(after, #[trigger] t.copy_lost(i, cancelled)) by {}
    assert forall|t: UnitState, i: int| places_what_is_held(after, #[trigger] t.orphan(i)) by {}
}

proof fn lemma_placing_places(
    after: dedupe::Listings,
    s: UnitState,
    e: InputView,
    cancelled: bool,
)
    requires
        s.stage is Placing || s.stage is Finalizing || s.stage is Moving || s.stage is Discarding
            || s.stage is Settled || s.stage is Cleaning || s.stage is Over,
        discards_what_is_held(after, s),
        step_leaves(after, s, e, cancelled),
    ensures
        places_what_is_held(after, s.next(e, cancelled)),
{
    match s.stage {
        StageView::Placing(j) => {
            lemma_settle_places(after, s, j + 1, cancelled);
        },
        StageView::Finalizing(j) => {
            lemma_settle_places(after, s, j + 1, cancelled);
        },
        StageView::Settled(j) => {
            lemma_settle_places(after, s, j + 1, cancelled);
        },
        _ => {},
    }
}

proof fn lemma_reserving_places(
    after: dedupe::Listings,
    s: UnitState,
    j: int,
    e: InputView,
    cancelled: bool,
)
    requires
        s.stage == StageView::Reserving(j),
        step_leaves(after, s, e, cancelled),
    ensures
        places_what_is_held(after, s.next(e, cancelled)),
{
    if let InputView::Reserved(action, reason) = e {
        let c = choose|c: dedupe::Listings| #[trigger]
            still_there(c, after) && (action, reason) == dedupe::decide(
                c,
                s.dest(j),
                s.staged_name(j),
                s.staged[j].size,
            );
        reimport::law_skipped_exactly_where_held(
            c,
            s.dest(j),
            s.staged_name(j),
            s.staged[j].size,
        );
        if action == PlannedAction::SkipExists {
            let dir = path::parent(s.dest(j))->0;
            assert(dedupe::entry_at(c, dir, s.staged_name(j)) is Some);
        }
    }
}

proof fn lemma_step_places(after: dedupe::Listings, s: UnitState, e: InputView, cancelled: bool)
    requires
        discards_what_is_held(after, s),
        step_leaves(after, s, e, cancelled),
    ensures
        places_what_is_held(after, s.next(e, cancelled)),
{
    match s.stage {
        StageView::Reading => {
            lemma_with_metadata_places(after, s, exiftool::no_metadata(), cancelled);
        },
        StageView::AwaitMetadata => {
            if let InputView::Metadata(Ok(meta)) = e {
                lemma_with_metadata_places(after, s, meta, cancelled);
            }
        },
        StageView::Warned => {
            lemma_with_metadata_places(after, s, exiftool::no_metadata(), cancelled);
        },
        StageView::FallbackWarned => {
            lemma_settle_places(after, s, 0, cancelled);
        },
        StageView::Reserving(j) => {
            lemma_reserving_places(after, s, j, e, cancelled);
        },
        StageView::Placing(_) => lemma_placing_places(after, s, e, cancelled),
        StageView::Finalizing(_) => lemma_placing_places(after, s, e, cancelled),
        StageView::Moving(_) => lemma_placing_places(after, s, e, cancelled),
        StageView::Discarding(_, _, _) => lemma_placing_places(after, s, e, cancelled),
        StageView::Settled(_) => lemma_placing_places(after, s, e, cancelled),
        StageView::Cleaning => lemma_placing_places(after, s, e, cancelled),
        StageView::Over => lemma_placing_places(after, s, e, cancelled),
        _ => {
            lemma_copying_places(after, s, e, cancelled);
        },
    }
}

proof fn lemma_trace_places(after: dedupe::Listings, s: UnitState, t: UnitTrace)
    requires
        s.stage is Ready,
        unit_leaves(after, s, t),
    ensures
        discards_what_is_held(after, totals::unit_after(s, t)),
        forall|place: Place| #[trigger] has_placed(s, t, place) ==> is_held(after, place),
    decreases t.len(),
{
    reveal(totals::unit_after);
    reveal(has_placed);
    reveal(unit_leaves);
    if t.len() > 0 {
        lemma_trace_places(after, s, t.drop_last());
        let b = totals::unit_after(s, t.drop_last());
        lemma_step_places(after, b, t.last().0, t.last().1);
        assert forall|place: Place| #[trigger] has_placed(s, t, place) implies is_held(
            after,
            place,
        ) by {
            if !has_placed(s, t.drop_last(), place) {
                assert(place_of(b.next(t.last().0, t.last().1).1) == Some(place));
            }
        }
    }
}

/// Whether the regular files of the listings are among the files of the library, outside the
/// staging directories.
pub open spec fn is_indexed(library: Seq<IndexedFileView>, listings: dedupe::Listings) -> bool {
    forall|dir: Seq<char>, name: Seq<char>|
        {
            let e = #[trigger] dedupe::entry_at(listings, dir, name);
            e is Some && e->0.is_file ==> has_key(library, (text::unicode_lower(name), e->0.size))
        }
}

/// Whether a file outside the staging directories is found by a lowercase name and a size.
pub open spec fn has_key(library: Seq<IndexedFileView>, key: index::IndexKey) -> bool {
    exists|k: int|
        0 <= k < library.len() && !(#[trigger] library[k]).staged() && library[k].key() == key
}

proof fn lemma_held_is_indexed(
    library: Seq<IndexedFileView>,
    listings: dedupe::Listings,
    place: Place,
    f: SourceFileView,
)
    requires
        is_indexed(library, listings),
        is_held(listings, place),
        place.name == text::after_last(f.rel_path, '/'),
        place.size == f.size,
    ensures
        reimport::in_library(library, f),
{
    let dir = path::parent(place.dest)->0;
    let e = dedupe::entry_at(listings, dir, place.name);
    assert(e is Some && e->0.is_file);
    assert(has_key(library, (text::unicode_lower(place.name), place.size)));
}

// ---------------------------------------------------------------------------
// The media file of a unit
// ---------------------------------------------------------------------------

/// The first staged file is the media file.
spec fn leads_with_parent(s: UnitState) -> bool {
    s.staged.len() > 0 && s.staged[0].rel_path == s.unit.parent.rel_path && s.staged[0].size
        == s.unit.parent.size
}

/// Nothing was lost, and once the media file was settled the library has it.
spec fn keeps_parent(library: Seq<IndexedFileView>, s: UnitState) -> bool {
    let has = reimport::in_library(library, s.unit.parent);
    match s.stage {
        StageView::Ready => true,
        StageView::Started(i) => i > 0 ==> leads_with_parent(s),
        StageView::Announced(i) => i > 0 ==> leads_with_parent(s),
        StageView::Resolving(i) => i > 0 ==> leads_with_parent(s),
        StageView::Copying(i) => i > 0 ==> leads_with_parent(s),
        StageView::CopyFailed(_) => false,
        StageView::Orphaned(_) => false,
        StageView::OrphanFailed(_) => false,
        StageView::Placing(j) => leads_with_parent(s) && (j > 0 ==> has),
        StageView::Reserving(j) => leads_with_parent(s) && (j > 0 ==> has),
        StageView::Finalizing(j) => leads_with_parent(s) && (j > 0 ==> has),
        StageView::Moving(j) => leads_with_parent(s) && (j > 0 ==> has),
        StageView::Discarding(j, file, outcome) => {
            &&& leads_with_parent(s)
            &&& j > 0 ==> has
            &&& file.source_rel_path == s.staged[j].rel_path
            &&& file.source_size == s.staged[j].size
            &&& outcome is Failed || file.action == PlannedAction::SkipNoDate || (file.action
                == PlannedAction::SkipExists && file.dest_path is Some)
        },
        StageView::Settled(_) => leads_with_parent(s) && has,
        StageView::Cleaning => has,
        StageView::Over => has,
        _ => leads_with_parent(s),
    }
}

/// A step that leaves nothing out and loses nothing.
spec fn is_clean(a: ActionView) -> bool {
    &&& !is_undated(a)
    &&& a matches ActionView::Finish { file, outcome } ==> !(outcome is Failed)
}

proof fn lemma_settle_keeps(library: Seq<IndexedFileView>, s: UnitState, j: int)
    requires
        leads_with_parent(s),
        0 <= j,
        j > 0 ==> reimport::in_library(library, s.unit.parent),
    ensures
        keeps_parent(library, s.settle(j, false).0),
{
}

proof fn lemma_with_metadata_keeps(
    library: Seq<IndexedFileView>,
    s: UnitState,
    meta: exiftool::MetadataView,
)
    requires
        leads_with_parent(s),
    ensures
        keeps_parent(library, s.with_metadata(meta, false).0),
{
    let dated = UnitState { date: metadata::resolved(s.staged[0].mtime, meta), ..s };
    lemma_settle_keeps(library, dated, 0);
}

proof fn lemma_copying_keeps(library: Seq<IndexedFileView>, s: UnitState, e: InputView)
    requires
        s.wf(),
        unit_laws::undisturbed(s, e),
        keeps_parent(library, s),
        is_clean(s.next(e, false).1),
        s.stage is Ready || s.stage is Started || s.stage is Announced || s.stage is Resolving
            || s.stage is Copying,
    ensures
        keeps_parent(library, s.next(e, false).0),
{
    if let StageView::Copying(i) = s.stage {
        if let InputView::Copied(Ok(_)) = e {
            let more = UnitState {
                staged: s.staged.push(
                    StagedView {
                        staged_path: s.staging_path(i),
                        rel_path: s.file(i).rel_path,
                        size: s.file(i).size,
                        kind: s.kind(i),
                        mtime: s.file(i).mtime,
                    },
                ),
                ..s
            };
            assert(leads_with_parent(more));
        }
    }
}

proof fn lemma_placing_keeps(
    library: Seq<IndexedFileView>,
    after: dedupe::Listings,
    s: UnitState,
    e: InputView,
)
    requires
        s.wf(),
        unit_laws::undisturbed(s, e),
        keeps_parent(library, s),
        is_indexed(library, after),
        discards_what_is_held(after, s),
        step_leaves(after, s, e, false),
        is_clean(s.next(e, false).1),
        s.stage is Placing || s.stage is Reserving || s.stage is Finalizing || s.stage is Moving
            || s.stage is Discarding || s.stage is Settled || s.stage is Cleaning
            || s.stage is Over,
    ensures
        keeps_parent(library, s.next(e, false).0),
{
    lemma_step_places(after, s, e, false);
    let step = s.next(e, false);
    if let Some(place) = place_of(step.1) {
        if s.stage is Moving || s.stage is Discarding {
            let j = if s.stage is Moving {
                s.stage->Moving_0
            } else {
                s.stage->Discarding_0
            };
            if j == 0 {
                lemma_held_is_indexed(library, after, place, s.unit.parent);
            }
        }
    }
    match s.stage {
        StageView::Settled(j) => {
            lemma_settle_keeps(library, s, j + 1);
        },
        StageView::Reserving(j) => {
            if let InputView::Reserved(action, reason) = e {
                let c = choose|c: dedupe::Listings| #[trigger]
                    still_there(c, after) && (action, reason) == dedupe::decide(
                        c,
                        s.dest(j),
                        s.staged_name(j),
                        s.staged[j].size,
                    );
                assert(action == PlannedAction::Copy || action == PlannedAction::Error || action
                    == PlannedAction::SkipExists);
            }
        },
        _ => {},
    }
}

proof fn lemma_step_keeps(
    library: Seq<IndexedFileView>,
    after: dedupe::Listings,
    s: UnitState,
    e: InputView,
)
    requires
        s.wf(),
        unit_laws::undisturbed(s, e),
        keeps_parent(library, s),
        is_indexed(library, after),
        discards_what_is_held(after, s),
        step_leaves(after, s, e, false),
        is_clean(s.next(e, false).1),
    ensures
        keeps_parent(library, s.next(e, false).0),
{
    match s.stage {
        StageView::Reading => {
            lemma_with_metadata_keeps(library, s, exiftool::no_metadata());
        },
        StageView::AwaitMetadata => {
            if let InputView::Metadata(Ok(meta)) = e {
                lemma_with_metadata_keeps(library, s, meta);
            }
        },
        StageView::Warned => {
            lemma_with_metadata_keeps(library, s, exiftool::no_metadata());
        },
        StageView::FallbackWarned => {
            lemma_settle_keeps(library, s, 0);
        },
        StageView::Ready => lemma_copying_keeps(library, s, e),
        StageView::Started(_) => lemma_copying_keeps(library, s, e),
        StageView::Announced(_) => lemma_copying_keeps(library, s, e),
        StageView::Resolving(_) => lemma_copying_keeps(library, s, e),
        StageView::Copying(_) => lemma_copying_keeps(library, s, e),
        StageView::CopyFailed(_) => {},
        StageView::Orphaned(_) => {},
        StageView::OrphanFailed(_) => {},
        _ => lemma_placing_keeps(library, after, s, e),
    }
}

proof fn lemma_trace_keeps(
    library: Seq<IndexedFileView>,
    after: dedupe::Listings,
    s: UnitState,
    t: UnitTrace,
)
    requires
        s.wf(),
        s.stage is Ready,
        totals::unit_undisturbed(s, t),
        unit_leaves(after, s, t),
        unit_is_dated(s, t),
        is_indexed(library, after),
        forall|i: int|
            0 <= i < totals::unit_outcomes(s, t).len() ==> !((#[trigger] totals::unit_outcomes(
                s,
                t,
            )[i]).outcome is Failed),
    ensures
        keeps_parent(library, totals::unit_after(s, t)),
        totals::unit_after(s, t).unit == s.unit,
    decreases t.len(),
{
    reveal(totals::unit_after);
    reveal(totals::unit_outcomes);
    reveal(totals::unit_undisturbed);
    reveal(unit_leaves);
    reveal(unit_is_dated);
    if t.len() > 0 {
        let b = totals::unit_after(s, t.drop_last());
        let before = totals::unit_outcomes(s, t.drop_last());
        let os = totals::unit_outcomes(s, t);
        let a = b.next(t.last().0, t.last().1).1;
        assert forall|i: int| 0 <= i < before.len() implies !((
        #[trigger] before[i]).outcome is Failed) by {
            assert(os[i] == before[i]);
        }
        lemma_trace_keeps(library, after, s, t.drop_last());
        totals::lemma_unit_trace(s, t.drop_last());
        totals::lemma_unit_trace(s, t);
        lemma_trace_places(after, s, t.drop_last());
        if let ActionView::Finish { file, outcome } = a {
            assert(os[before.len() as int].outcome == outcome);
        }
        lemma_step_keeps(library, after, b, t.last().0);
    }
}

proof fn lemma_over_keeps(
    library: Seq<IndexedFileView>,
    after: dedupe::Listings,
    s: UnitState,
    t: UnitTrace,
)
    requires
        s.wf(),
        s.stage is Ready,
        totals::unit_undisturbed(s, t),
        unit_leaves(after, s, t),
        unit_is_dated(s, t),
        is_indexed(library, after),
        forall|i: int|
            0 <= i < totals::unit_outcomes(s, t).len() ==> !((#[trigger] totals::unit_outcomes(
                s,
                t,
            )[i]).outcome is Failed),
        totals::unit_after(s, t).stage is Over,
    ensures
        reimport::in_library(library, s.unit.parent),
{
    lemma_trace_keeps(library, after, s, t);
}

// ---------------------------------------------------------------------------
// Two imports of one card
// ---------------------------------------------------------------------------

/// An import of a card, and a later one of the same files with the same settings.
pub struct Twice {
    /// The first scan.
    pub scan: ScanState,
    /// The files of the library before the first import.
    pub library: Seq<IndexedFileView>,
    /// The first import.
    pub first: Import,
    /// The later import, with the files of the card and the library as it finds it.
    pub again: Again,
}

impl Twice {
    pub open spec fn sorting(self) -> Sorting {
        Sorting {
            cfg: self.scan.cfg,
            profile: self.again.profile,
            source: self.scan.source,
            library: index::indexed(self.library),
        }
    }

    /// The first import carried out the plan of its scan to its end, nobody disturbed it,
    /// nothing failed, and no file was left out for want of a date.
    pub open spec fn first_went_well(self) -> bool {
        &&& self.first.cfg == self.scan.cfg
        &&& self.first.plan == self.scan.plan(self.again.profile, self.again.files, self.library)
        &&& self.first.plan.items.len() <= usize::MAX
        &&& self.first.is_complete()
        &&& self.first.undisturbed()
        &&& totals::tally(self.first.counted).failed == 0
        &&& forall|i: int|
            0 <= i < self.first.work.len() ==> unit_is_dated(
                self.first.unit_start(i),
                #[trigger] self.first.work[i],
            )
    }

    /// The library still has the files that it had, what the first import found there and
    /// what it copied; and the later scan sees all regular files of the directories.
    pub open spec fn library_is_kept(self) -> bool {
        &&& forall|k: int|
            0 <= k < self.library.len() && !(#[trigger] self.library[k]).staged() ==> has_key(
                self.again.library,
                self.library[k].key(),
            )
        &&& forall|i: int|
            0 <= i < self.first.work.len() ==> unit_leaves(
                self.again.listings,
                self.first.unit_start(i),
                #[trigger] self.first.work[i],
            )
        &&& is_indexed(self.again.library, self.again.listings)
    }

    /// Whether the first import reported a file in a place, as copied or as being there.
    pub open spec fn was_placed(self, place: Place) -> bool {
        exists|i: int|
            0 <= i < self.first.work.len() && has_placed(
                self.first.unit_start(i),
                #[trigger] self.first.work[i],
                place,
            )
    }

    /// Whether every file of a unit that asked for a place again was told what is there, and
    /// asked for a place that the first import had given it.
    #[verifier::opaque]
    pub open spec fn leads_back(self, s: UnitState, t: UnitTrace) -> bool
        decreases t.len(),
    {
        t.len() == 0 || {
            let b = totals::unit_after(s, t.drop_last());
            &&& self.leads_back(s, t.drop_last())
            &&& b.stage matches StageView::Reserving(j) ==> (t.last().0 is Reserved ==> {
                let v = dedupe::decide(
                    self.again.listings,
                    b.dest(j),
                    b.staged_name(j),
                    b.staged[j].size,
                );
                &&& t.last().0 == InputView::Reserved(v.0, v.1)
                &&& self.was_placed(
                    Place { dest: b.dest(j), name: b.staged_name(j), size: b.staged[j].size },
                )
            })
        }
    }

    /// The later import has the same settings and carries out the plan of its scan to its
    /// end, and every file that asks for a place is led back to where it is.
    pub open spec fn is_repeated(self) -> bool {
        let w = self.again.import;
        &&& self.again.scan.cfg == self.scan.cfg
        &&& w.cfg == self.scan.cfg
        &&& w.plan == self.again.scan.plan(
            self.again.profile,
            self.again.files,
            self.again.library,
        )
        &&& w.plan.items.len() <= usize::MAX
        &&& w.is_complete()
        &&& forall|i: int|
            0 <= i < w.work.len() ==> self.leads_back(w.unit_start(i), #[trigger] w.work[i])
    }
}

proof fn lemma_failed_grows(os: Seq<Report>)
    requires
        0 < os.len() <= u64::MAX,
    ensures
        totals::tally(os).failed == totals::tally(os.drop_last()).failed + if os.last().outcome
            is Failed {
            1int
        } else {
            0int
        },
{
    totals::lemma_tally(os.drop_last());
}

proof fn lemma_none_failed(os: Seq<Report>)
    requires
        os.len() <= u64::MAX,
        totals::tally(os).failed == 0,
    ensures
        forall|i: int| 0 <= i < os.len() ==> !((#[trigger] os[i]).outcome is Failed),
    decreases os.len(),
{
    if os.len() > 0 {
        lemma_failed_grows(os);
        lemma_none_failed(os.drop_last());
        assert forall|i: int| 0 <= i < os.len() implies !((#[trigger] os[i]).outcome is Failed) by {
            if i < os.len() - 1 {
                assert(os.drop_last()[i] == os[i]);
            }
        }
    }
}

proof fn lemma_unit_report_is_reported(w: Import, n: nat, i: int, k: int)
    requires
        0 <= i < n <= w.work.len(),
        0 <= k < totals::unit_outcomes(w.unit_start(i), w.work[i]).len(),
    ensures
        w.unit_reports(n).contains(totals::unit_outcomes(w.unit_start(i), w.work[i])[k]),
    decreases n,
{
    let x = totals::unit_outcomes(w.unit_start(i), w.work[i])[k];
    let before = w.unit_reports((n - 1) as nat);
    if i == n - 1 {
        assert(w.unit_reports(n)[before.len() + k] == x);
    } else {
        lemma_unit_report_is_reported(w, (n - 1) as nat, i, k);
        let m = choose|m: int| 0 <= m < before.len() && before[m] == x;
        assert(w.unit_reports(n)[m] == x);
    }
}

proof fn lemma_no_unit_failed(w: Import, i: int)
    requires
        w.is_complete(),
        w.counted.len() <= u64::MAX,
        totals::tally(w.counted).failed == 0,
        0 <= i < w.work.len(),
    ensures
        forall|k: int|
            0 <= k < totals::unit_outcomes(w.unit_start(i), w.work[i]).len() ==> !((
            #[trigger] totals::unit_outcomes(w.unit_start(i), w.work[i])[k]).outcome is Failed),
{
    lemma_none_failed(w.counted);
    let os = totals::unit_outcomes(w.unit_start(i), w.work[i]);
    assert forall|k: int| 0 <= k < os.len() implies !((#[trigger] os[k]).outcome is Failed) by {
        lemma_unit_report_is_reported(w, w.work.len(), i, k);
        let theirs = w.unit_reports(w.work.len());
        let own = totals::run_outcomes(w.start(), w.run);
        let m = choose|m: int| 0 <= m < theirs.len() && theirs[m] == os[k];
        assert(w.reports()[own.len() + m] == os[k]);
        assert(w.reports().contains(os[k]));
        vstd::seq_lib::to_multiset_contains(w.reports(), os[k]);
        vstd::seq_lib::to_multiset_contains(w.counted, os[k]);
        let c = choose|c: int| 0 <= c < w.counted.len() && w.counted[c] == os[k];
        assert(!(w.counted[c].outcome is Failed));
    }
}

proof fn lemma_media_position(sorting: Sorting, fs: Seq<SourceFileView>, f: SourceFileView) -> (k:
    int)
    requires
        fs.contains(f),
        sorting.is_media(f),
    ensures
        0 <= k < sorting.media(fs).len(),
        sorting.media(fs)[k].0 == f,
    decreases fs.len(),
{
    let i = choose|i: int| 0 <= i < fs.len() && fs[i] == f;
    if i == fs.len() - 1 {
        sorting.media(fs).len() - 1
    } else {
        assert(fs.drop_last()[i] == f);
        let k = lemma_media_position(sorting, fs.drop_last(), f);
        assert(sorting.media(fs)[k] == sorting.media(fs.drop_last())[k]);
        k
    }
}

proof fn lemma_all_begun(w: Twice)
    requires
        w.first_went_well(),
    ensures
        w.first.counted.len() <= u64::MAX,
        w.first.work.len() == w.first.plan.units.len(),
        forall|k: int|
            0 <= k < w.first.plan.units.len() ==> (#[trigger] w.first.begun()[k]).unit
                == w.first.plan.units[k],
{
    let p = w.first.plan;
    totals::law_scanned_plan_is_covered(w.scan, w.again.profile, w.again.files, w.library);
    totals::lemma_reports_len(w.first);
    totals::lemma_files_in_take(p.units, p.units.len() as int);
    assert(p.units.take(p.units.len() as int) =~= p.units);
    totals::law_run_covers_the_plan(w.first.cfg, p, w.first.run);
}

proof fn lemma_unit_starts(w: Import, k: int)
    requires
        0 <= k < w.begun().len(),
    ensures
        w.unit_start(k).wf(),
        w.unit_start(k).stage is Ready,
        w.unit_start(k).unit == w.begun()[k].unit,
{
}

proof fn lemma_unit_leaves_parent(w: Twice, k: int)
    requires
        w.first_went_well(),
        w.library_is_kept(),
        0 <= k < w.first.plan.units.len(),
    ensures
        reimport::in_library(w.again.library, w.first.plan.units[k].parent),
{
    let first = w.first;
    lemma_all_begun(w);
    assert(first.begun()[k].unit == first.plan.units[k]);
    lemma_unit_starts(first, k);
    lemma_no_unit_failed(first, k);
    let t = first.work[k];
    let s = first.unit_start(k);
    assert(unit_is_dated(s, t));
    assert(unit_leaves(w.again.listings, s, t));
    assert(totals::unit_undisturbed(s, t));
    assert(totals::unit_after(s, t).stage is Over);
    lemma_over_keeps(w.again.library, w.again.listings, s, t);
}

/// An import that goes well leaves the library with every file that is imported for its own
/// sake: a file that the library had before is still found there, and any other was copied or
/// found in its place.
pub proof fn law_import_leaves_its_files(w: Twice, i: int)
    requires
        w.first_went_well(),
        w.library_is_kept(),
        0 <= i < w.again.files.len(),
        w.sorting().kind(w.again.files[i]) is Some,
        !(w.sorting().kind(w.again.files[i])->0 is Sidecar),
        w.sorting().keeps(w.sorting().kind(w.again.files[i])->0),
    ensures
        reimport::in_library(w.again.library, w.again.files[i]),
{
    let f = w.again.files[i];
    let sorting = w.sorting();
    let key = sorting.key(f);
    index::law_index_finds_library_files(w.library, key);
    if sorting.library.contains_key(key) {
        let k = choose|k: int|
            0 <= k < w.library.len() && !(#[trigger] w.library[k]).staged() && w.library[k].key()
                == key;
        assert(has_key(w.again.library, w.library[k].key()));
    } else {
        assert(w.again.files.contains(f));
        let k = lemma_media_position(sorting, w.again.files, f);
        let media = sorting.media(w.again.files);
        let units = w.first.plan.units;
        assert(units[k].parent == f);
        lemma_unit_leaves_parent(w, k);
    }
}

proof fn lemma_leads_back(w: Twice, s: UnitState, t: UnitTrace)
    requires
        w.library_is_kept(),
        w.leads_back(s, t),
    ensures
        reimport::finds_its_files(w.again.listings, s, t),
    decreases t.len(),
{
    reveal(reimport::finds_its_files);
    reveal(Twice::leads_back);
    if t.len() > 0 {
        lemma_leads_back(w, s, t.drop_last());
        let b = totals::unit_after(s, t.drop_last());
        if let StageView::Reserving(j) = b.stage {
            if t.last().0 is Reserved {
                let place = Place {
                    dest: b.dest(j),
                    name: b.staged_name(j),
                    size: b.staged[j].size,
                };
                let i = choose|i: int|
                    0 <= i < w.first.work.len() && has_placed(
                        w.first.unit_start(i),
                        #[trigger] w.first.work[i],
                        place,
                    );
                assert(unit_leaves(w.again.listings, w.first.unit_start(i), w.first.work[i]));
                lemma_trace_places(w.again.listings, w.first.unit_start(i), w.first.work[i]);
                assert(is_held(w.again.listings, place));
            }
        }
    }
}

/// Importing the same card again adds nothing to the library: after an import that went well,
/// with the library kept since, a later import of the same files with the same settings
/// copies nothing, however it goes, and looks at nothing but lone sidecars; where nobody
/// disturbs it and the card can be read, nothing fails and every file is skipped. It is stated
/// for sidecars whose own date leads back to where the first import had put them; one whose
/// own date leads elsewhere is copied there.
pub proof fn law_importing_twice_copies_nothing(w: Twice)
    requires
        w.first_went_well(),
        w.library_is_kept(),
        w.is_repeated(),
    ensures
        w.again.is_again(),
        forall|i: int|
            0 <= i < w.again.import.plan.units.len() ==> (
            #[trigger] w.again.import.plan.units[i]).parent_kind is Sidecar
                && w.again.import.plan.units[i].sidecars.len() == 0,
        totals::tally(w.again.import.counted).copied == 0,
        w.again.import.undisturbed() && plan::layout_fault(
            w.again.import.cfg,
            MediaKind::Sidecar,
        ) is None && (forall|i: int|
            0 <= i < w.again.import.work.len() ==> reimport::all_went_well(
                #[trigger] w.again.import.work[i],
            )) ==> totals::tally(w.again.import.counted).failed == 0 && totals::tally(
            w.again.import.counted,
        ).skipped == w.again.import.plan.items.len(),
{
    let a = w.again;
    assert forall|i: int| 0 <= i < a.files.len() implies {
        let kind = a.sorting().kind(#[trigger] a.files[i]);
        kind is Some && !(kind->0 is Sidecar) && a.sorting().keeps(kind->0)
            ==> reimport::in_library(a.library, a.files[i])
    } by {
        let kind = a.sorting().kind(a.files[i]);
        assert(w.sorting().kind(a.files[i]) == kind);
        if kind is Some && !(kind->0 is Sidecar) && a.sorting().keeps(kind->0) {
            assert(w.sorting().keeps(kind->0));
            law_import_leaves_its_files(w, i);
        }
    }
    assert forall|i: int| 0 <= i < a.import.work.len() implies reimport::finds_its_files(
        a.listings,
        a.import.unit_start(i),
        #[trigger] a.import.work[i],
    ) by {
        lemma_leads_back(w, a.import.unit_start(i), a.import.work[i]);
    }
    reimport::law_second_import_copies_nothing(a);
}

} // verus!
