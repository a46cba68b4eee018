//! A dry run: the files of a plan are dated where they are, and it is shown
//! what would happen to them. Nothing is written.

use vstd::prelude::*;
use crate::classify::MediaKind;
use crate::config::{EngineConfig, EngineConfigView};
use crate::dedupe::{self, DedupeCache, DirEntry};
use crate::error::{Error, ErrorView};
use crate::events::{
    self, EngineEvent, EventView, FileOutcome, OutcomeView, PlannedAction, PlannedFile,
    PlannedFileView, SyncSummary,
};
use crate::exiftool::{FileMetadata, MetadataView};
use crate::metadata::{self, ResolvedMetadata, ResolvedView};
use crate::path::{self, NativePath, NativeView};
use crate::plan::{self, CopyUnit, PlanView, ScannedFile, ScannedView, SyncPlan, UnitView};
use crate::source::{self, SourceFile, SourceFileView, SourceId};
use crate::text;
use super::execute;
use super::Counters;

verus! {

/// What reading a directory gave; `None` if it cannot be read.
#[derive(Debug)]
pub struct DirListing {
    pub dir: String,
    pub found: Option<Vec<DirEntry>>,
}

/// What is to be done next.
#[derive(Debug)]
#[allow(inconsistent_fields)]
pub enum DryAction {
    /// Send an event. Answered by `Sent`.
    Emit(EngineEvent),
    /// Count an outcome and send it. Answered by `Finished`.
    Finish { file: PlannedFile, outcome: FileOutcome },
    /// Ask the source where a file can be read. Answered by `SourcePath`.
    ResolveSource { file: SourceFile },
    /// Start ExifTool. Answered by `Exif`.
    SpawnExif,
    /// Ask ExifTool about some files. Answered by `Batch`.
    ReadBatch { paths: Vec<String> },
    /// Stop ExifTool. Answered by `ShutDown`.
    ShutdownExif,
    /// Read these directories. Answered by `Listings`.
    ReadDirs { dirs: Vec<String> },
    /// Read the counters. Answered by `Totals`.
    Summarize,
    /// The run failed.
    Fail(Error),
    /// The run is complete.
    Complete(SyncSummary),
}

/// The contents of a [`DryAction`].
#[allow(inconsistent_fields)]
pub enum DryActionView {
    Emit(EventView),
    Finish { file: PlannedFileView, outcome: OutcomeView },
    ResolveSource { file: SourceFileView },
    SpawnExif,
    ReadBatch { paths: Seq<Seq<char>> },
    ShutdownExif,
    ReadDirs { dirs: Seq<Seq<char>> },
    Summarize,
    Fail(ErrorView),
    Complete(SyncSummary),
}

impl View for DryAction {
    type V = DryActionView;

    open spec fn view(&self) -> DryActionView {
        match self {
            DryAction::Emit(e) => DryActionView::Emit(e@),
            DryAction::Finish { file, outcome } => DryActionView::Finish {
                file: file@,
                outcome: outcome@,
            },
            DryAction::ResolveSource { file } => DryActionView::ResolveSource { file: file@ },
            DryAction::SpawnExif => DryActionView::SpawnExif,
            DryAction::ReadBatch { paths } => DryActionView::ReadBatch {
                paths: text::texts(paths@),
            },
            DryAction::ShutdownExif => DryActionView::ShutdownExif,
            DryAction::ReadDirs { dirs } => DryActionView::ReadDirs { dirs: text::texts(dirs@) },
            DryAction::Summarize => DryActionView::Summarize,
            DryAction::Fail(e) => DryActionView::Fail(e@),
            DryAction::Complete(s) => DryActionView::Complete(*s),
        }
    }
}

/// What came of the last action.
#[derive(Debug)]
pub enum DryEvent {
    Start,
    /// Whether anyone still listens.
    Sent(bool),
    Finished,
    SourcePath(std::result::Result<NativePath, Error>),
    Exif(std::result::Result<(), Error>),
    Batch(std::result::Result<Vec<FileMetadata>, Error>),
    ShutDown,
    Listings(Vec<DirListing>),
    Totals(Counters),
}

/// The contents of a list of metadata.
pub open spec fn metas_view(v: Seq<FileMetadata>) -> Seq<MetadataView> {
    v.map_values(|m: FileMetadata| m@)
}

/// The listings after directories were read, in order.
pub open spec fn loaded(c: dedupe::Listings, ls: Seq<DirListing>) -> dedupe::Listings
    decreases ls.len(),
{
    if ls.len() == 0 {
        c
    } else {
        let before = loaded(c, ls.drop_last());
        let d = path::normal(ls.last().dir@);
        if before.contains_key(d) {
            before
        } else {
            before.insert(d, dedupe::opt_listing(ls.last().found))
        }
    }
}

/// The contents of a [`DryEvent`].
pub enum DryInput {
    Start,
    Sent(bool),
    Finished,
    SourcePath(std::result::Result<NativeView, ErrorView>),
    Exif(std::result::Result<(), ErrorView>),
    Batch(std::result::Result<Seq<MetadataView>, ErrorView>),
    ShutDown,
    Listings(dedupe::Listings),
    Totals(Counters),
}

impl View for DryEvent {
    type V = DryInput;

    open spec fn view(&self) -> DryInput {
        match self {
            DryEvent::Start => DryInput::Start,
            DryEvent::Sent(ok) => DryInput::Sent(*ok),
            DryEvent::Finished => DryInput::Finished,
            DryEvent::SourcePath(Ok(p)) => DryInput::SourcePath(Ok(p@)),
            DryEvent::SourcePath(Err(e)) => DryInput::SourcePath(Err(e@)),
            DryEvent::Exif(Ok(_)) => DryInput::Exif(Ok(())),
            DryEvent::Exif(Err(e)) => DryInput::Exif(Err(e@)),
            DryEvent::Batch(Ok(v)) => DryInput::Batch(Ok(metas_view(v@))),
            DryEvent::Batch(Err(e)) => DryInput::Batch(Err(e@)),
            DryEvent::ShutDown => DryInput::ShutDown,
            DryEvent::Listings(ls) => DryInput::Listings(loaded(Map::empty(), ls@)),
            DryEvent::Totals(c) => DryInput::Totals(*c),
        }
    }
}

/// Why ExifTool is being stopped.
#[derive(Debug)]
enum Closing {
    /// All dates are known.
    Done,
    /// The run is cancelled.
    Stop,
    /// The dates could not be read.
    Failed(Error),
}

/// Why ExifTool is being stopped.
pub enum ClosingView {
    Done,
    Stop,
    Failed(ErrorView),
}

/// Where the run stands: what was asked for last.
#[derive(Debug)]
enum Stage {
    Ready,
    Announcing(usize),
    Reporting(usize),
    Resolving(usize),
    Spawning,
    Reading,
    Counted,
    Closing(Closing),
    Listing,
    Showing(usize),
    Shown(usize),
    Totalling,
    Finishing(SyncSummary),
    Over,
}

/// Where the run stands.
pub enum DryStage {
    Ready,
    /// A decided file was announced.
    Announcing(int),
    /// Its outcome was reported.
    Reporting(int),
    /// The source was asked for a file.
    Resolving(int),
    /// ExifTool is being started.
    Spawning,
    /// ExifTool was asked.
    Reading,
    /// The number of dated files was reported.
    Counted,
    /// ExifTool is being stopped.
    Closing(ClosingView),
    /// The destination directories are being read.
    Listing,
    /// A dated file was announced.
    Showing(int),
    /// Its outcome was reported.
    Shown(int),
    /// The counters are being read.
    Totalling,
    /// The end was announced.
    Finishing(SyncSummary),
    Over,
}

impl View for Stage {
    type V = DryStage;

    closed spec fn view(&self) -> DryStage {
        match self {
            Stage::Ready => DryStage::Ready,
            Stage::Announcing(i) => DryStage::Announcing(*i as int),
            Stage::Reporting(i) => DryStage::Reporting(*i as int),
            Stage::Resolving(i) => DryStage::Resolving(*i as int),
            Stage::Spawning => DryStage::Spawning,
            Stage::Reading => DryStage::Reading,
            Stage::Counted => DryStage::Counted,
            Stage::Closing(Closing::Done) => DryStage::Closing(ClosingView::Done),
            Stage::Closing(Closing::Stop) => DryStage::Closing(ClosingView::Stop),
            Stage::Closing(Closing::Failed(e)) => DryStage::Closing(ClosingView::Failed(e@)),
            Stage::Listing => DryStage::Listing,
            Stage::Showing(i) => DryStage::Showing(*i as int),
            Stage::Shown(i) => DryStage::Shown(*i as int),
            Stage::Totalling => DryStage::Totalling,
            Stage::Finishing(s) => DryStage::Finishing(*s),
            Stage::Over => DryStage::Over,
        }
    }
}

/// The files of units with their kinds, each media file before its sidecars.
pub open spec fn flat(us: Seq<UnitView>) -> Seq<(SourceFileView, MediaKind)>
    decreases us.len(),
{
    if us.len() == 0 {
        Seq::empty()
    } else {
        flat(us.drop_last()).push((us.last().parent, us.last().parent_kind))
            + us.last().sidecars.map_values(|f: SourceFileView| (f, MediaKind::Sidecar))
    }
}

/// The state of a dry run.
pub struct DryState {
    pub cfg: EngineConfigView,
    pub source: Seq<char>,
    pub rows: Seq<PlannedFileView>,
    pub files: Seq<(SourceFileView, MediaKind)>,
    pub total: u64,
    /// Where the files can be read, as text.
    pub paths: Seq<Seq<char>>,
    /// The dates of the files, as far as they are known.
    pub dates: Seq<Option<ResolvedView>>,
    /// What would happen to the files.
    pub items: Seq<PlannedFileView>,
    pub stage: DryStage,
}

/// A state and what is to be done in it.
pub type Step = (DryState, DryActionView);

/// The dates of files with metadata.
pub open spec fn dates_of(
    files: Seq<(SourceFileView, MediaKind)>,
    from: int,
    metas: Seq<MetadataView>,
) -> Seq<Option<ResolvedView>> {
    Seq::new(
        metas.len(),
        |i: int| metadata::resolved(files[from + i].0.mtime, metas[i]),
    )
}

impl DryState {
    pub open spec fn at(self, stage: DryStage) -> DryState {
        DryState { stage, ..self }
    }

    pub open spec fn fail(self, e: ErrorView) -> Step {
        (self.at(DryStage::Over), DryActionView::Fail(e))
    }

    /// The run ends.
    pub open spec fn totals(self) -> Step {
        (self.at(DryStage::Totalling), DryActionView::Summarize)
    }

    /// Goes on with the next decided file, or with the files to date.
    pub open spec fn decided(self, i: int, cancelled: bool) -> Step {
        if cancelled {
            self.totals()
        } else if i >= self.rows.len() {
            self.resolve(0, cancelled)
        } else {
            (
                self.at(DryStage::Announcing(i)),
                DryActionView::Emit(EventView::FileStarted { file: self.rows[i] }),
            )
        }
    }

    /// Goes on with the next file of the source, or with ExifTool.
    pub open spec fn resolve(self, i: int, cancelled: bool) -> Step {
        if cancelled {
            self.totals()
        } else if i >= self.files.len() {
            (self.at(DryStage::Spawning), DryActionView::SpawnExif)
        } else {
            (
                self.at(DryStage::Resolving(i)),
                DryActionView::ResolveSource { file: self.files[i].0 },
            )
        }
    }

    pub open spec fn close(self, why: ClosingView) -> Step {
        (self.at(DryStage::Closing(why)), DryActionView::ShutdownExif)
    }

    /// How many files ExifTool is asked about at once.
    pub open spec fn batch_size(self) -> int {
        if self.cfg.performance.metadata_batch_size >= 1 {
            self.cfg.performance.metadata_batch_size as int
        } else {
            1
        }
    }

    /// Where the next batch ends.
    pub open spec fn batch_end(self) -> int {
        if self.dates.len() + self.batch_size() < self.paths.len() {
            self.dates.len() + self.batch_size()
        } else {
            self.paths.len() as int
        }
    }

    /// Goes on with the next batch of files.
    pub open spec fn batch(self, cancelled: bool) -> Step {
        if self.dates.len() >= self.paths.len() {
            self.close(ClosingView::Done)
        } else if cancelled {
            self.close(ClosingView::Stop)
        } else {
            (
                self.at(DryStage::Reading),
                DryActionView::ReadBatch {
                    paths: self.paths.subrange(self.dates.len() as int, self.batch_end()),
                },
            )
        }
    }

    /// The files with their dates.
    pub open spec fn scanned(self) -> Seq<ScannedView> {
        Seq::new(
            self.dates.len(),
            |i: int|
                ScannedView {
                    source: self.source,
                    file: self.files[i].0,
                    kind: self.files[i].1,
                    metadata: self.dates[i],
                },
        )
    }

    /// What would happen to the files, given what is there already.
    pub open spec fn full_rows(self, c: dedupe::Listings) -> Seq<plan::Row> {
        plan::full_rows(self.cfg, c, self.scanned())
    }

    /// The destinations are looked at.
    pub open spec fn look(self) -> Step {
        let rows = self.full_rows(Map::empty());
        let k = plan::first_error(rows);
        if k < rows.len() {
            self.fail(rows[k]->Err_0)
        } else {
            (
                self.at(DryStage::Listing),
                DryActionView::ReadDirs { dirs: plan::dest_dirs(plan::good_rows(rows)) },
            )
        }
    }

    /// Goes on with the next dated file.
    pub open spec fn show(self, i: int, cancelled: bool) -> Step {
        if cancelled || i >= self.items.len() {
            self.totals()
        } else {
            (
                self.at(DryStage::Showing(i)),
                DryActionView::Emit(EventView::FileStarted { file: self.items[i] }),
            )
        }
    }

    /// The outcome that a file would have.
    pub open spec fn outcome(self, i: int) -> OutcomeView {
        if self.items[i].action == PlannedAction::Copy {
            OutcomeView::Copied { bytes: self.items[i].source_size }
        } else {
            execute::decided_outcome(self.items[i])
        }
    }

    /// The state and action that follow an event. A run that is told what it
    /// did not ask for fails.
    pub open spec fn next(self, e: DryInput, cancelled: bool) -> Step {
        match (self.stage, e) {
            (DryStage::Ready, DryInput::Start) => self.decided(0, cancelled),
            (DryStage::Announcing(i), DryInput::Sent(ok)) => if !ok {
                self.decided(i + 1, cancelled)
            } else {
                (
                    self.at(DryStage::Reporting(i)),
                    DryActionView::Finish {
                        file: self.rows[i],
                        outcome: execute::decided_outcome(self.rows[i]),
                    },
                )
            },
            (DryStage::Reporting(i), DryInput::Finished) => self.decided(i + 1, cancelled),
            (DryStage::Resolving(i), DryInput::SourcePath(r)) => match r {
                Err(e) => self.fail(e),
                Ok(p) => (DryState { paths: self.paths.push(p.text), ..self }).resolve(
                    i + 1,
                    cancelled,
                ),
            },
            (DryStage::Spawning, DryInput::Exif(r)) => match r {
                Err(e) => self.fail(e),
                Ok(_) => self.batch(cancelled),
            },
            (DryStage::Reading, DryInput::Batch(r)) => match r {
                Err(e) => self.close(ClosingView::Failed(e)),
                Ok(metas) => {
                    let dated = DryState {
                        dates: self.dates + dates_of(
                            self.files,
                            self.dates.len() as int,
                            metas,
                        ),
                        ..self
                    };
                    (
                        dated.at(DryStage::Counted),
                        DryActionView::Emit(
                            EventView::MetadataProgress {
                                done: dated.dates.len() as u64,
                                total: self.files.len() as u64,
                            },
                        ),
                    )
                },
            },
            (DryStage::Counted, DryInput::Sent(ok)) => if !ok || cancelled {
                self.close(ClosingView::Stop)
            } else {
                self.batch(cancelled)
            },
            (DryStage::Closing(why), DryInput::ShutDown) => match why {
                ClosingView::Failed(e) => self.fail(e),
                ClosingView::Stop => self.totals(),
                ClosingView::Done => if cancelled {
                    self.totals()
                } else {
                    self.look()
                },
            },
            (DryStage::Listing, DryInput::Listings(c)) => {
                let rows = self.full_rows(c);
                let k = plan::first_error(rows);
                if k < rows.len() {
                    self.fail(rows[k]->Err_0)
                } else {
                    (DryState { items: plan::good_rows(rows), ..self }).show(0, cancelled)
                }
            },
            (DryStage::Showing(i), DryInput::Sent(ok)) => if !ok {
                if self.items[i].action == PlannedAction::Copy {
                    self.totals()
                } else {
                    self.show(i + 1, cancelled)
                }
            } else {
                (
                    self.at(DryStage::Shown(i)),
                    DryActionView::Finish { file: self.items[i], outcome: self.outcome(i) },
                )
            },
            (DryStage::Shown(i), DryInput::Finished) => self.show(i + 1, cancelled),
            (DryStage::Totalling, DryInput::Totals(c)) => {
                let summary = SyncSummary {
                    total: self.total,
                    copied: c.copied,
                    skipped: c.skipped,
                    failed: c.failed,
                    cancelled,
                };
                (
                    self.at(DryStage::Finishing(summary)),
                    DryActionView::Emit(EventView::ExecutionFinished { summary }),
                )
            },
            (DryStage::Finishing(summary), DryInput::Sent(_)) => (
                self.at(DryStage::Over),
                DryActionView::Complete(summary),
            ),
            _ => self.fail(ErrorView::Cancelled),
        }
    }

    /// The numbers of the stage stand for rows and files that are there, and
    /// the dates for files whose path is known.
    pub open spec fn wf(self) -> bool {
        &&& self.dates.len() <= self.paths.len() <= self.files.len()
        &&& match self.stage {
            DryStage::Ready => self.paths.len() == 0,
            DryStage::Announcing(i) => 0 <= i < self.rows.len() && self.paths.len() == 0,
            DryStage::Reporting(i) => 0 <= i < self.rows.len() && self.paths.len() == 0,
            DryStage::Resolving(i) => 0 <= i < self.files.len() && self.paths.len() == i,
            DryStage::Spawning => self.paths.len() == self.files.len(),
            DryStage::Reading => self.paths.len() == self.files.len(),
            DryStage::Counted => self.paths.len() == self.files.len(),
            DryStage::Closing(_) => self.paths.len() == self.files.len(),
            DryStage::Showing(i) => 0 <= i < self.items.len(),
            DryStage::Shown(i) => 0 <= i < self.items.len(),
            _ => true,
        }
    }

    /// Whether metadata comes for as many files as it was asked for.
    pub open spec fn fits(self, e: DryInput) -> bool {
        self.stage is Reading && e is Batch && e->Batch_0 is Ok ==> e->Batch_0->Ok_0.len()
            == self.batch_end() - self.dates.len()
    }
}

/// A dry run.
#[derive(Debug)]
pub struct DryRun {
    cfg: EngineConfig,
    source: SourceId,
    rows: Vec<PlannedFile>,
    files: Vec<(SourceFile, MediaKind)>,
    total: u64,
    paths: Vec<String>,
    dates: Vec<Option<ResolvedMetadata>>,
    items: Vec<PlannedFile>,
    stage: Stage,
}

/// The contents of a list of dates.
pub open spec fn dates_view(v: Seq<Option<ResolvedMetadata>>) -> Seq<Option<ResolvedView>> {
    v.map_values(|d: Option<ResolvedMetadata>| metadata::opt_resolved(d))
}

impl View for DryRun {
    type V = DryState;

    closed spec fn view(&self) -> DryState {
        DryState {
            cfg: self.cfg@,
            source: self.source@,
            rows: events::planned_view(self.rows@),
            files: plan::media_view(self.files@),
            total: self.total,
            paths: text::texts(self.paths@),
            dates: dates_view(self.dates@),
            items: events::planned_view(self.items@),
            stage: self.stage@,
        }
    }
}

fn flatten(us: &Vec<CopyUnit>) -> (r: Vec<(SourceFile, MediaKind)>)
    ensures
        plan::media_view(r@) == flat(plan::units_view(us@)),
{
    let ghost all = plan::units_view(us@);
    let mut out: Vec<(SourceFile, MediaKind)> = Vec::new();
    let mut i: usize = 0;
    proof {
        assert(plan::media_view(out@) =~= flat(all.take(0)));
    }
    while i < us.len()
        invariant
            i <= us@.len(),
            all == plan::units_view(us@),
            plan::media_view(out@) == flat(all.take(i as int)),
        decreases us@.len() - i,
    {
        let u = &us[i];
        proof {
            assert(all.take(i + 1).drop_last() =~= all.take(i as int));
            assert(all.take(i + 1).last() == u@);
        }
        let parent = (u.parent.clone(), u.parent_kind);
        proof {
            assert(plan::media_view(out@.push(parent)) =~= plan::media_view(out@).push(
                (parent.0@, parent.1),
            ));
        }
        out.push(parent);
        let ghost head = plan::media_view(out@);
        let ghost tail = u@.sidecars.map_values(|f: SourceFileView| (f, MediaKind::Sidecar));
        let mut k: usize = 0;
        proof {
            assert(head + tail.take(0) =~= head);
        }
        while k < u.sidecars.len()
            invariant
                k <= u.sidecars@.len(),
                tail == source::files_view(u.sidecars@).map_values(
                    |f: SourceFileView| (f, MediaKind::Sidecar),
                ),
                plan::media_view(out@) == head + tail.take(k as int),
            decreases u.sidecars@.len() - k,
        {
            let side = (u.sidecars[k].clone(), MediaKind::Sidecar);
            proof {
                assert(plan::media_view(out@.push(side)) =~= plan::media_view(out@).push(
                    (side.0@, side.1),
                ));
                assert(tail[k as int] == (side.0@, side.1));
                assert(head + tail.take(k + 1) =~= (head + tail.take(k as int)).push(
                    tail[k as int],
                ));
            }
            out.push(side);
            k += 1;
        }
        proof {
            assert(tail.take(tail.len() as int) =~= tail);
        }
        i += 1;
    }
    proof {
        assert(all.take(all.len() as int) =~= all);
    }
    out
}

/// A dry run that has not begun.
pub open spec fn fresh(cfg: EngineConfigView, source: Seq<char>, plan: PlanView) -> DryState {
    DryState {
        cfg,
        source,
        rows: execute::decided_rows(plan.items),
        files: flat(plan.units),
        total: plan.items.len() as u64,
        paths: Seq::empty(),
        dates: Seq::empty(),
        items: Seq::empty(),
        stage: DryStage::Ready,
    }
}

impl DryRun {
    /// A dry run of a plan.
    pub fn new(cfg: EngineConfig, source: SourceId, plan: &SyncPlan) -> (r: Self)
        ensures
            r@ == fresh(cfg@, source@, plan@),
            r@.wf(),
    {
        let r = DryRun {
            cfg,
            source,
            rows: execute::rows_decided(&plan.items),
            files: flatten(&plan.units),
            total: plan.items.len() as u64,
            paths: Vec::new(),
            dates: Vec::new(),
            items: Vec::new(),
            stage: Stage::Ready,
        };
        proof {
            assert(r@.paths =~= Seq::<Seq<char>>::empty());
            assert(r@.dates =~= Seq::<Option<ResolvedView>>::empty());
            assert(r@.items =~= Seq::<PlannedFileView>::empty());
        }
        r
    }

    fn fail(&mut self, e: Error) -> (r: DryAction)
        ensures
            final(self)@ == old(self)@.fail(e@).0,
            r@ == old(self)@.fail(e@).1,
    {
        self.stage = Stage::Over;
        DryAction::Fail(e)
    }

    fn totals(&mut self) -> (r: DryAction)
        ensures
            final(self)@ == old(self)@.totals().0,
            r@ == old(self)@.totals().1,
    {
        self.stage = Stage::Totalling;
        DryAction::Summarize
    }

    fn resolve(&mut self, i: usize, cancelled: bool) -> (r: DryAction)
        ensures
            final(self)@ == old(self)@.resolve(i as int, cancelled).0,
            r@ == old(self)@.resolve(i as int, cancelled).1,
    {
        if cancelled {
            return self.totals();
        }
        if i >= self.files.len() {
            self.stage = Stage::Spawning;
            return DryAction::SpawnExif;
        }
        self.stage = Stage::Resolving(i);
        DryAction::ResolveSource { file: self.files[i].0.clone() }
    }

    fn decided(&mut self, i: usize, cancelled: bool) -> (r: DryAction)
        ensures
            final(self)@ == old(self)@.decided(i as int, cancelled).0,
            r@ == old(self)@.decided(i as int, cancelled).1,
    {
        if cancelled {
            return self.totals();
        }
        if i >= self.rows.len() {
            return self.resolve(0, cancelled);
        }
        self.stage = Stage::Announcing(i);
        DryAction::Emit(EngineEvent::FileStarted { file: self.rows[i].clone() })
    }

    fn close(&mut self, why: Closing) -> (r: DryAction)
        ensures
            final(self)@ == old(self)@.at(Stage::Closing(why)@),
            r@ is ShutdownExif,
    {
        self.stage = Stage::Closing(why);
        DryAction::ShutdownExif
    }

    fn batch(&mut self, cancelled: bool) -> (r: DryAction)
        requires
            old(self)@.dates.len() <= old(self)@.paths.len(),
        ensures
            final(self)@ == old(self)@.batch(cancelled).0,
            r@ == old(self)@.batch(cancelled).1,
    {
        let from: usize = self.dates.len();
        let len: usize = self.paths.len();
        if from >= len {
            return self.close(Closing::Done);
        }
        if cancelled {
            return self.close(Closing::Stop);
        }
        let size: usize = if self.cfg.performance.metadata_batch_size >= 1 {
            self.cfg.performance.metadata_batch_size
        } else {
            1
        };
        let to: usize = if size < len - from {
            from + size
        } else {
            len
        };
        let ghost want = self@.paths.subrange(from as int, to as int);
        let mut paths: Vec<String> = Vec::new();
        let mut i: usize = from;
        proof {
            assert(text::texts(paths@) =~= want.take(0));
        }
        while i < to
            invariant
                from <= i <= to <= self.paths@.len(),
                want == text::texts(self.paths@).subrange(from as int, to as int),
                text::texts(paths@) == want.take(i - from),
            decreases to - i,
        {
            let p = self.paths[i].clone();
            proof {
                assert(text::texts(paths@.push(p)) =~= text::texts(paths@).push(p@));
                assert(want[i - from] == p@);
                assert(want.take(i + 1 - from) =~= want.take(i - from).push(want[i - from]));
            }
            paths.push(p);
            i += 1;
        }
        proof {
            assert(want.take(to - from) =~= want);
        }
        self.stage = Stage::Reading;
        DryAction::ReadBatch { paths }
    }

    fn scanned(&self) -> (r: Vec<ScannedFile>)
        requires
            self@.wf(),
        ensures
            plan::scanned_view(r@) == self@.scanned(),
    {
        let ghost all = self@.scanned();
        let mut out: Vec<ScannedFile> = Vec::new();
        let mut i: usize = 0;
        while i < self.dates.len()
            invariant
                i <= self.dates@.len() <= self.files@.len(),
                all == self@.scanned(),
                plan::scanned_view(out@) =~= all.take(i as int),
            decreases self.dates@.len() - i,
        {
            let date = match &self.dates[i] {
                Some(d) => Some(d.clone()),
                None => None,
            };
            let s = ScannedFile {
                source: self.source.clone(),
                file: self.files[i].0.clone(),
                kind: self.files[i].1,
                metadata: date,
            };
            proof {
                assert(self@.files[i as int] == (self.files@[i as int].0@, self.files@[i as int].1));
                assert(self@.dates[i as int] == metadata::opt_resolved(self.dates@[i as int]));
                assert(all[i as int] == s@);
                assert(plan::scanned_view(out@.push(s)) =~= plan::scanned_view(out@).push(s@));
                assert(all.take(i + 1) =~= all.take(i as int).push(all[i as int]));
            }
            out.push(s);
            i += 1;
        }
        proof {
            assert(all.take(all.len() as int) =~= all);
        }
        out
    }

    fn look(&mut self) -> (r: DryAction)
        requires
            old(self)@.wf(),
        ensures
            final(self)@ == old(self)@.look().0,
            r@ == old(self)@.look().1,
    {
        let scanned = self.scanned();
        let nothing = DedupeCache::new();
        match plan::build_plan(&self.cfg, &scanned, &nothing) {
            Err(e) => self.fail(e),
            Ok(p) => {
                self.stage = Stage::Listing;
                DryAction::ReadDirs { dirs: plan::wanted_dirs(&p) }
            },
        }
    }

    fn show(&mut self, i: usize, cancelled: bool) -> (r: DryAction)
        ensures
            final(self)@ == old(self)@.show(i as int, cancelled).0,
            r@ == old(self)@.show(i as int, cancelled).1,
    {
        if cancelled || i >= self.items.len() {
            return self.totals();
        }
        self.stage = Stage::Showing(i);
        DryAction::Emit(EngineEvent::FileStarted { file: self.items[i].clone() })
    }

    fn on_batch(&mut self, result: std::result::Result<Vec<FileMetadata>, Error>) -> (r: DryAction)
        requires
            old(self)@.stage is Reading,
            old(self)@.wf(),
            old(self)@.fits(DryEvent::Batch(result)@),
        ensures
            ({
                let e = DryEvent::Batch(result);
                forall|cancelled: bool|
                    final(self)@ == (#[trigger] old(self)@.next(e@, cancelled)).0 && r@ == old(
                        self,
                    )@.next(e@, cancelled).1
            }),
    {
        match result {
            Err(e) => self.close(Closing::Failed(e)),
            Ok(metas) => {
                let from: usize = self.dates.len();
                let ghost before = self@;
                let ghost extra = dates_of(before.files, from as int, metas_view(metas@));
                let mut i: usize = 0;
                proof {
                    assert(before.dates + extra.take(0) =~= before.dates);
                }
                while i < metas.len()
                    invariant
                        i <= metas@.len(),
                        from + metas@.len() <= self.files@.len(),
                        extra == dates_of(before.files, from as int, metas_view(metas@)),
                        dates_view(self.dates@) == before.dates + extra.take(i as int),
                        self@ == (DryState { dates: dates_view(self.dates@), ..before }),
                        before.files == plan::media_view(self.files@),
                    decreases metas@.len() - i,
                {
                    let n: usize = self.files.len();
                    let d = metadata::resolve_one(&self.files[from + i].0, &metas[i]);
                    proof {
                        assert(before.files[from + i] == (
                            self.files@[from + i].0@,
                            self.files@[from + i].1,
                        ));
                        assert(metas_view(metas@)[i as int] == metas@[i as int]@);
                        assert(extra[i as int] == metadata::opt_resolved(d));
                        assert(dates_view(self.dates@.push(d)) =~= dates_view(self.dates@).push(
                            metadata::opt_resolved(d),
                        ));
                        assert(before.dates + extra.take(i + 1) =~= (before.dates + extra.take(
                            i as int,
                        )).push(extra[i as int]));
                    }
                    self.dates.push(d);
                    i += 1;
                }
                proof {
                    assert(extra.take(extra.len() as int) =~= extra);
                    assert(metas_view(metas@).len() == metas@.len());
                }
                self.stage = Stage::Counted;
                DryAction::Emit(
                    EngineEvent::MetadataProgress {
                        done: self.dates.len() as u64,
                        total: self.files.len() as u64,
                    },
                )
            },
        }
    }

    fn on_listings(&mut self, listings: Vec<DirListing>, cancelled: bool) -> (r: DryAction)
        requires
            old(self)@.stage is Listing,
            old(self)@.wf(),
        ensures
            ({
                let e = DryEvent::Listings(listings);
                final(self)@ == old(self)@.next(e@, cancelled).0 && r@ == old(self)@.next(
                    e@,
                    cancelled,
                ).1
            }),
    {
        let cache = load_all(listings);
        let scanned = self.scanned();
        match plan::build_plan(&self.cfg, &scanned, &cache) {
            Err(e) => self.fail(e),
            Ok(p) => {
                self.items = p.items;
                self.show(0, cancelled)
            },
        }
    }

    /// Takes what came of the last action and says what is to be done next.
    /// `cancelled` tells whether the run is to stop.
    pub fn step(&mut self, event: DryEvent, cancelled: bool) -> (r: DryAction)
        requires
            old(self)@.wf(),
            old(self)@.fits(event@),
        ensures
            final(self)@ == old(self)@.next(event@, cancelled).0,
            r@ == old(self)@.next(event@, cancelled).1,
            final(self)@.wf(),
    {
        let ghost before = self@;
        let rows: usize = self.rows.len();
        let files: usize = self.files.len();
        let items: usize = self.items.len();
        let mut stage = Stage::Over;
        std::mem::swap(&mut stage, &mut self.stage);
        proof {
            assert(self@ == before.at(DryStage::Over));
            before.lemma_next_wf(event@, cancelled);
        }
        match (stage, event) {
            (Stage::Ready, DryEvent::Start) => self.decided(0, cancelled),
            (Stage::Announcing(i), DryEvent::Sent(ok)) => {
                if !ok {
                    return self.decided(i + 1, cancelled);
                }
                let file = self.rows[i].clone();
                let outcome = execute::outcome_of_decided(&self.rows[i]);
                self.stage = Stage::Reporting(i);
                DryAction::Finish { file, outcome }
            },
            (Stage::Reporting(i), DryEvent::Finished) => self.decided(i + 1, cancelled),
            (Stage::Resolving(i), DryEvent::SourcePath(result)) => match result {
                Err(e) => self.fail(e),
                Ok(p) => {
                    let shown = p.text;
                    proof {
                        assert(text::texts(self.paths@.push(shown)) =~= text::texts(
                            self.paths@,
                        ).push(shown@));
                    }
                    self.paths.push(shown);
                    self.resolve(i + 1, cancelled)
                },
            },
            (Stage::Spawning, DryEvent::Exif(result)) => match result {
                Err(e) => self.fail(e),
                Ok(_) => self.batch(cancelled),
            },
            (Stage::Reading, DryEvent::Batch(result)) => {
                self.stage = Stage::Reading;
                self.on_batch(result)
            },
            (Stage::Counted, DryEvent::Sent(ok)) => {
                if !ok || cancelled {
                    return self.close(Closing::Stop);
                }
                self.batch(cancelled)
            },
            (Stage::Closing(why), DryEvent::ShutDown) => match why {
                Closing::Failed(e) => self.fail(e),
                Closing::Stop => self.totals(),
                Closing::Done => {
                    if cancelled {
                        return self.totals();
                    }
                    self.look()
                },
            },
            (Stage::Listing, DryEvent::Listings(listings)) => {
                self.stage = Stage::Listing;
                self.on_listings(listings, cancelled)
            },
            (Stage::Showing(i), DryEvent::Sent(ok)) => {
                if !ok {
                    if self.items[i].action == PlannedAction::Copy {
                        return self.totals();
                    }
                    return self.show(i + 1, cancelled);
                }
                let file = self.items[i].clone();
                let outcome = if file.action == PlannedAction::Copy {
                    FileOutcome::Copied { bytes: file.source_size }
                } else {
                    execute::outcome_of_decided(&file)
                };
                self.stage = Stage::Shown(i);
                DryAction::Finish { file, outcome }
            },
            (Stage::Shown(i), DryEvent::Finished) => self.show(i + 1, cancelled),
            (Stage::Totalling, DryEvent::Totals(c)) => {
                let summary = c.summary(self.total, cancelled);
                self.stage = Stage::Finishing(summary);
                DryAction::Emit(EngineEvent::ExecutionFinished { summary })
            },
            (Stage::Finishing(summary), DryEvent::Sent(_)) => DryAction::Complete(summary),
            _ => self.fail(Error::Cancelled),
        }
    }
}

fn load_all(listings: Vec<DirListing>) -> (r: DedupeCache)
    ensures
        r@ == loaded(Map::empty(), listings@),
{
    let mut cache = DedupeCache::new();
    let mut left = listings;
    let ghost all = listings@;
    let mut ordered: Vec<DirListing> = Vec::new();
    // The listings are taken from the back and loaded from the front.
    while left.len() > 0
        invariant
            all == left@ + ordered@.reverse(),
            left@.len() + ordered@.len() == all.len(),
        decreases left@.len(),
    {
        let ghost l0 = left@;
        let ghost o0 = ordered@;
        match left.pop() {
            Some(l) => {
                ordered.push(l);
                proof {
                    assert(l0 =~= left@.push(l));
                    assert(ordered@.reverse() =~= seq![l] + o0.reverse());
                    assert(all =~= left@ + ordered@.reverse());
                }
            },
            None => {},
        }
    }
    proof {
        assert(all =~= ordered@.reverse());
        assert(all.take(0) =~= Seq::<DirListing>::empty());
    }
    let n: usize = ordered.len();
    while ordered.len() > 0
        invariant
            all.len() == n,
            ordered@.len() <= n,
            all.skip(n - ordered@.len()) =~= ordered@.reverse(),
            cache@ == loaded(Map::empty(), all.take(n - ordered@.len())),
        decreases ordered@.len(),
    {
        let ghost o0 = ordered@;
        let ghost k = n - o0.len();
        match ordered.pop() {
            Some(l) => {
                proof {
                    assert(o0.reverse()[0] == l);
                    assert(all.skip(k)[0] == l);
                    assert(all[k] == l);
                    assert(all.take(k + 1).drop_last() =~= all.take(k));
                    assert(all.take(k + 1).last() == l);
                    assert(all.skip(k + 1) =~= all.skip(k).skip(1));
                    assert(o0.reverse().skip(1) =~= ordered@.reverse());
                }
                cache.load(l.dir.as_str(), l.found);
            },
            None => {},
        }
    }
    proof {
        assert(all.take(n as int) =~= all);
    }
    cache
}

impl DryState {
    proof fn lemma_resolve_wf(self, i: int, cancelled: bool)
        requires
            0 <= i <= self.files.len(),
            self.paths.len() == i,
            self.dates.len() <= self.paths.len(),
        ensures
            self.resolve(i, cancelled).0.wf(),
    {
    }

    proof fn lemma_decided_wf(self, i: int, cancelled: bool)
        requires
            0 <= i,
            self.paths.len() == 0,
            self.dates.len() == 0,
        ensures
            self.decided(i, cancelled).0.wf(),
    {
        self.lemma_resolve_wf(0, cancelled);
    }

    pub proof fn lemma_next_wf(self, e: DryInput, cancelled: bool)
        requires
            self.wf(),
            self.fits(e),
        ensures
            self.next(e, cancelled).0.wf(),
    {
        match self.stage {
            DryStage::Ready => {
                self.lemma_decided_wf(0, cancelled);
            },
            DryStage::Announcing(i) => {
                self.lemma_decided_wf(i + 1, cancelled);
            },
            DryStage::Reporting(i) => {
                self.lemma_decided_wf(i + 1, cancelled);
            },
            DryStage::Resolving(i) => {
                if let DryInput::SourcePath(Ok(p)) = e {
                    (DryState { paths: self.paths.push(p.text), ..self }).lemma_resolve_wf(
                        i + 1,
                        cancelled,
                    );
                }
            },
            _ => {},
        }
    }
}

// ---------------------------------------------------------------------------
// Laws
// ---------------------------------------------------------------------------

/// ExifTool, once started, is stopped before a dry run goes on or fails.
pub proof fn law_exiftool_is_stopped(s: DryState, e: DryInput, cancelled: bool)
    requires
        s.stage is Reading || s.stage is Counted,
        s.stage is Reading ==> e is Batch,
        s.stage is Counted ==> e is Sent,
    ensures
        s.next(e, cancelled).1 is ShutdownExif || s.next(e, cancelled).0.stage is Reading || s.next(
            e,
            cancelled,
        ).0.stage is Counted,
{
}

/// Every batch asks about at least one file and at most as many as the
/// settings say, and the batches go through the files in order.
pub proof fn law_batches_cover_the_files(s: DryState)
    requires
        s.wf(),
        s.dates.len() < s.paths.len(),
    ensures
        s.dates.len() < s.batch_end() <= s.paths.len(),
        s.batch_end() - s.dates.len() <= s.batch_size(),
        s.batch(false).1 == (DryActionView::ReadBatch {
            paths: s.paths.subrange(s.dates.len() as int, s.batch_end()),
        }),
{
}

} // verus!
