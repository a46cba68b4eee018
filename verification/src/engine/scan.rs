//! Scanning a source and planning what to copy. The plan is made without
//! reading a single date: what the library has already is told by name and
//! size.

use vstd::prelude::*;
use crate::config::{EngineConfig, EngineConfigView};
use crate::error::{Error, ErrorView};
use crate::events::{DetectedProfile, DetectedProfileView, EngineEvent, EventView, PlanSummary};
use crate::index::{self, DestIndex, IndexedFile};
use crate::plan::{self, PlanView, Sorting, SyncPlan};
use crate::profiles::{self, CameraProfile, ProfileRegistry, ProfileView};
use crate::roots::{self, RootState};
use crate::source::{self, SourceFile, SourceFileView, SourceId};
use crate::text;
use super::{ScanResult, ScanResultView};

verus! {

/// What is to be done next.
#[derive(Debug)]
#[allow(inconsistent_fields)]
pub enum ScanAction {
    /// Ask what the two destination roots are. Answered by `Roots`.
    CheckRoots { images: String, videos: String },
    /// Send an event. Answered by `Sent`.
    Emit(EngineEvent),
    /// Ask which of these paths exist. Answered by `Existing`.
    Probe { paths: Vec<String> },
    /// List the files of the source. Answered by `Files`.
    ListFiles,
    /// Find all files below the destination roots. Answered by `Indexed`.
    IndexRoots { images: String, videos: String },
    /// The scan failed.
    Fail(Error),
    /// The scan is complete.
    Complete(ScanResult),
}

/// The contents of a [`ScanAction`].
#[allow(inconsistent_fields)]
pub enum ScanActionView {
    CheckRoots { images: Seq<char>, videos: Seq<char> },
    Emit(EventView),
    Probe { paths: Seq<Seq<char>> },
    ListFiles,
    IndexRoots { images: Seq<char>, videos: Seq<char> },
    Fail(ErrorView),
    Complete(ScanResultView),
}

impl View for ScanAction {
    type V = ScanActionView;

    open spec fn view(&self) -> ScanActionView {
        match self {
            ScanAction::CheckRoots { images, videos } => ScanActionView::CheckRoots {
                images: images@,
                videos: videos@,
            },
            ScanAction::Emit(e) => ScanActionView::Emit(e@),
            ScanAction::Probe { paths } => ScanActionView::Probe { paths: text::texts(paths@) },
            ScanAction::ListFiles => ScanActionView::ListFiles,
            ScanAction::IndexRoots { images, videos } => ScanActionView::IndexRoots {
                images: images@,
                videos: videos@,
            },
            ScanAction::Fail(e) => ScanActionView::Fail(e@),
            ScanAction::Complete(r) => ScanActionView::Complete(r@),
        }
    }
}

/// What came of the last action.
#[derive(Debug)]
pub enum ScanEvent {
    Start,
    Roots(RootState, RootState),
    /// Whether anyone still listens.
    Sent(bool),
    Existing(Vec<String>),
    Files(std::result::Result<Vec<SourceFile>, Error>),
    Indexed(Vec<IndexedFile>),
}

/// The contents of a [`ScanEvent`].
pub enum ScanInput {
    Start,
    Roots(RootState, RootState),
    Sent(bool),
    Existing(Seq<Seq<char>>),
    Files(std::result::Result<Seq<SourceFileView>, ErrorView>),
    Indexed(Seq<index::IndexedFileView>),
}

impl View for ScanEvent {
    type V = ScanInput;

    open spec fn view(&self) -> ScanInput {
        match self {
            ScanEvent::Start => ScanInput::Start,
            ScanEvent::Roots(a, b) => ScanInput::Roots(*a, *b),
            ScanEvent::Sent(ok) => ScanInput::Sent(*ok),
            ScanEvent::Existing(p) => ScanInput::Existing(text::texts(p@)),
            ScanEvent::Files(Ok(fs)) => ScanInput::Files(Ok(source::files_view(fs@))),
            ScanEvent::Files(Err(e)) => ScanInput::Files(Err(e@)),
            ScanEvent::Indexed(fs) => ScanInput::Indexed(index::found_view(fs@)),
        }
    }
}

/// Where the scan stands: what was asked for last, with what is known by then.
#[derive(Debug)]
enum Stage {
    Ready,
    Checking,
    Started,
    Probing,
    Detected(CameraProfile),
    Listing(CameraProfile),
    Counted(CameraProfile, Vec<SourceFile>),
    Listed(CameraProfile, Vec<SourceFile>),
    Indexing(CameraProfile, Vec<SourceFile>),
    Planned(CameraProfile, SyncPlan),
    Over,
}

/// Where the scan stands.
pub enum ScanStage {
    Ready,
    /// The roots are being checked.
    Checking,
    /// The start was announced.
    Started,
    /// The markers are being looked for.
    Probing,
    /// The camera was announced.
    Detected(ProfileView),
    /// The files are being listed.
    Listing(ProfileView),
    /// The number of files was reported.
    Counted(ProfileView, Seq<SourceFileView>),
    /// The end of the listing was announced.
    Listed(ProfileView, Seq<SourceFileView>),
    /// The library is being indexed.
    Indexing(ProfileView, Seq<SourceFileView>),
    /// The plan was announced.
    Planned(ProfileView, PlanView),
    Over,
}

impl View for Stage {
    type V = ScanStage;

    closed spec fn view(&self) -> ScanStage {
        match self {
            Stage::Ready => ScanStage::Ready,
            Stage::Checking => ScanStage::Checking,
            Stage::Started => ScanStage::Started,
            Stage::Probing => ScanStage::Probing,
            Stage::Detected(p) => ScanStage::Detected(p@),
            Stage::Listing(p) => ScanStage::Listing(p@),
            Stage::Counted(p, fs) => ScanStage::Counted(p@, source::files_view(fs@)),
            Stage::Listed(p, fs) => ScanStage::Listed(p@, source::files_view(fs@)),
            Stage::Indexing(p, fs) => ScanStage::Indexing(p@, source::files_view(fs@)),
            Stage::Planned(p, plan) => ScanStage::Planned(p@, plan@),
            Stage::Over => ScanStage::Over,
        }
    }
}

/// The state of a scan.
pub struct ScanState {
    pub cfg: EngineConfigView,
    pub registry: Seq<ProfileView>,
    pub source: Seq<char>,
    pub display_name: Seq<char>,
    pub root: Seq<char>,
    pub stage: ScanStage,
}

/// What is shown of a camera.
pub open spec fn profile_shown(p: ProfileView) -> DetectedProfileView {
    DetectedProfileView { id: p.id, display_name: p.display_name }
}

/// What a plan comes to.
pub open spec fn summary_of(p: PlanView) -> PlanSummary {
    PlanSummary {
        copies: plan::count_copies(p.items) as u64,
        skips: plan::count_skips(p.items) as u64,
        errors: plan::count_errors(p.items) as u64,
    }
}

impl ScanState {
    pub open spec fn at(self, stage: ScanStage) -> ScanState {
        ScanState { stage, ..self }
    }

    /// The scan fails.
    pub open spec fn fail(self, e: ErrorView) -> (ScanState, ScanActionView) {
        (self.at(ScanStage::Over), ScanActionView::Fail(e))
    }

    /// The plan for the files of a source.
    pub open spec fn plan(
        self,
        p: ProfileView,
        fs: Seq<SourceFileView>,
        library: Seq<index::IndexedFileView>,
    ) -> PlanView {
        let sorting = Sorting {
            cfg: self.cfg,
            profile: p,
            source: self.source,
            library: index::indexed(library),
        };
        let units = plan::units(sorting.media(fs), sorting.sidecars(fs));
        PlanView { items: plan::unit_rows(self.source, units) + sorting.rows(fs), units }
    }

    /// Whether there is a camera profile for the source, once its markers are known.
    pub open spec fn detects(self, e: ScanInput) -> bool {
        self.stage is Probing && e is Existing ==> profiles::detectable(
            self.registry,
            self.root,
            e->Existing_0,
        )
    }

    /// The state and action that follow an event. A scan that is cancelled, or
    /// whose listener is gone, fails as cancelled; so does one that is told
    /// what it did not ask for.
    pub open spec fn next(self, e: ScanInput, cancelled: bool) -> (ScanState, ScanActionView) {
        match (self.stage, e) {
            (ScanStage::Ready, ScanInput::Start) => if cancelled {
                self.fail(ErrorView::Cancelled)
            } else {
                (
                    self.at(ScanStage::Checking),
                    ScanActionView::CheckRoots {
                        images: self.cfg.images_root,
                        videos: self.cfg.videos_root,
                    },
                )
            },
            (ScanStage::Checking, ScanInput::Roots(images, videos)) => {
                let a = roots::root_fault(self.cfg.images_root, "images_root"@, images);
                let b = roots::root_fault(self.cfg.videos_root, "videos_root"@, videos);
                if a is Some {
                    self.fail(a->0)
                } else if b is Some {
                    self.fail(b->0)
                } else if cancelled {
                    self.fail(ErrorView::Cancelled)
                } else {
                    (
                        self.at(ScanStage::Started),
                        ScanActionView::Emit(
                            EventView::ScanStarted {
                                source: self.source,
                                display_name: self.display_name,
                            },
                        ),
                    )
                }
            },
            (ScanStage::Started, ScanInput::Sent(ok)) => if !ok {
                self.fail(ErrorView::Cancelled)
            } else {
                (
                    self.at(ScanStage::Probing),
                    ScanActionView::Probe {
                        paths: profiles::all_markers(self.registry, self.root),
                    },
                )
            },
            (ScanStage::Probing, ScanInput::Existing(existing)) => {
                let p = profiles::detected(self.registry, self.root, existing);
                (
                    self.at(ScanStage::Detected(p)),
                    ScanActionView::Emit(EventView::ProfileDetected { profile: profile_shown(p) }),
                )
            },
            (ScanStage::Detected(p), ScanInput::Sent(ok)) => if !ok || cancelled {
                self.fail(ErrorView::Cancelled)
            } else {
                (self.at(ScanStage::Listing(p)), ScanActionView::ListFiles)
            },
            (ScanStage::Listing(p), ScanInput::Files(r)) => match r {
                Err(e) => self.fail(e),
                Ok(fs) => if cancelled {
                    self.fail(ErrorView::Cancelled)
                } else {
                    (
                        self.at(ScanStage::Counted(p, fs)),
                        ScanActionView::Emit(
                            EventView::ScanProgress {
                                source: self.source,
                                files_seen: fs.len() as u64,
                            },
                        ),
                    )
                },
            },
            (ScanStage::Counted(p, fs), ScanInput::Sent(ok)) => if !ok {
                self.fail(ErrorView::Cancelled)
            } else {
                (
                    self.at(ScanStage::Listed(p, fs)),
                    ScanActionView::Emit(
                        EventView::ScanComplete { source: self.source, files: fs.len() as u64 },
                    ),
                )
            },
            (ScanStage::Listed(p, fs), ScanInput::Sent(ok)) => if !ok || cancelled {
                self.fail(ErrorView::Cancelled)
            } else {
                (
                    self.at(ScanStage::Indexing(p, fs)),
                    ScanActionView::IndexRoots {
                        images: self.cfg.images_root,
                        videos: self.cfg.videos_root,
                    },
                )
            },
            (ScanStage::Indexing(p, fs), ScanInput::Indexed(library)) => if cancelled {
                self.fail(ErrorView::Cancelled)
            } else {
                let plan = self.plan(p, fs, library);
                (
                    self.at(ScanStage::Planned(p, plan)),
                    ScanActionView::Emit(EventView::PlanReady { summary: summary_of(plan) }),
                )
            },
            (ScanStage::Planned(p, plan), ScanInput::Sent(ok)) => if !ok || cancelled {
                self.fail(ErrorView::Cancelled)
            } else {
                (
                    self.at(ScanStage::Over),
                    ScanActionView::Complete(
                        ScanResultView { plan, profile: profile_shown(p) },
                    ),
                )
            },
            _ => self.fail(ErrorView::Cancelled),
        }
    }
}

/// A scan of a source.
#[derive(Debug)]
pub struct ScanRun {
    cfg: EngineConfig,
    registry: ProfileRegistry,
    source: SourceId,
    display_name: String,
    root: String,
    stage: Stage,
}

impl View for ScanRun {
    type V = ScanState;

    closed spec fn view(&self) -> ScanState {
        ScanState {
            cfg: self.cfg@,
            registry: self.registry@,
            source: self.source@,
            display_name: self.display_name@,
            root: self.root@,
            stage: self.stage@,
        }
    }
}

fn shown(p: &CameraProfile) -> (r: DetectedProfile)
    ensures
        r@ == profile_shown(p@),
{
    DetectedProfile { id: p.id.clone(), display_name: p.display_name.clone() }
}

impl ScanRun {
    /// A scan of a source. The registry knows the camera to fall back to.
    pub fn new(
        cfg: EngineConfig,
        registry: ProfileRegistry,
        source: SourceId,
        display_name: &str,
        root: &str,
    ) -> (r: Self)
        ensures
            r@ == (ScanState {
                cfg: cfg@,
                registry: registry@,
                source: source@,
                display_name: display_name@,
                root: root@,
                stage: ScanStage::Ready,
            }),
    {
        ScanRun {
            cfg,
            registry,
            source,
            display_name: text::copy_str(display_name),
            root: text::copy_str(root),
            stage: Stage::Ready,
        }
    }

    fn fail(&mut self, e: Error) -> (r: ScanAction)
        ensures
            final(self)@ == old(self)@.fail(e@).0,
            r@ == old(self)@.fail(e@).1,
    {
        self.stage = Stage::Over;
        ScanAction::Fail(e)
    }

    fn on_roots(&mut self, images: &RootState, videos: &RootState, cancelled: bool) -> (r:
        ScanAction)
        requires
            old(self)@.stage is Checking,
        ensures
            final(self)@ == old(self)@.next(ScanInput::Roots(*images, *videos), cancelled).0,
            r@ == old(self)@.next(ScanInput::Roots(*images, *videos), cancelled).1,
    {
        match roots::check_dest_root(self.cfg.images_root.as_str(), "images_root", images) {
            Ok(_) => {},
            Err(e) => {
                return self.fail(e);
            },
        }
        match roots::check_dest_root(self.cfg.videos_root.as_str(), "videos_root", videos) {
            Ok(_) => {},
            Err(e) => {
                return self.fail(e);
            },
        }
        if cancelled {
            return self.fail(Error::Cancelled);
        }
        self.stage = Stage::Started;
        ScanAction::Emit(
            EngineEvent::ScanStarted {
                source: self.source.clone(),
                display_name: self.display_name.clone(),
            },
        )
    }

    fn make_plan(&self, p: &CameraProfile, files: Vec<SourceFile>, library: &Vec<IndexedFile>) -> (r:
        SyncPlan)
        ensures
            r@ == self@.plan(p@, source::files_view(files@), index::found_view(library@)),
    {
        let dest_index = DestIndex::build(library);
        let cheap = plan::cheap_plan(&self.cfg, p, &self.source, files, &dest_index);
        cheap.into_sync_plan(&self.source)
    }

    /// Takes what came of the last action and says what is to be done next.
    /// `cancelled` tells whether the scan is to stop.
    pub fn step(&mut self, event: ScanEvent, cancelled: bool) -> (r: ScanAction)
        requires
            old(self)@.detects(event@),
        ensures
            final(self)@ == old(self)@.next(event@, cancelled).0,
            r@ == old(self)@.next(event@, cancelled).1,
    {
        let ghost before = self@;
        let mut stage = Stage::Over;
        std::mem::swap(&mut stage, &mut self.stage);
        match (stage, event) {
            (Stage::Ready, ScanEvent::Start) => {
                if cancelled {
                    return self.fail(Error::Cancelled);
                }
                self.stage = Stage::Checking;
                ScanAction::CheckRoots {
                    images: self.cfg.images_root.clone(),
                    videos: self.cfg.videos_root.clone(),
                }
            },
            (Stage::Checking, ScanEvent::Roots(images, videos)) => {
                self.stage = Stage::Checking;
                self.on_roots(&images, &videos, cancelled)
            },
            (Stage::Started, ScanEvent::Sent(ok)) => {
                if !ok {
                    return self.fail(Error::Cancelled);
                }
                self.stage = Stage::Probing;
                ScanAction::Probe { paths: self.registry.marker_candidates(self.root.as_str()) }
            },
            (Stage::Probing, ScanEvent::Existing(existing)) => {
                let p = self.registry.detect_for_source(self.root.as_str(), &existing).clone();
                let profile = shown(&p);
                self.stage = Stage::Detected(p);
                ScanAction::Emit(EngineEvent::ProfileDetected { profile })
            },
            (Stage::Detected(p), ScanEvent::Sent(ok)) => {
                if !ok || cancelled {
                    return self.fail(Error::Cancelled);
                }
                self.stage = Stage::Listing(p);
                ScanAction::ListFiles
            },
            (Stage::Listing(p), ScanEvent::Files(result)) => match result {
                Err(e) => self.fail(e),
                Ok(files) => {
                    if cancelled {
                        return self.fail(Error::Cancelled);
                    }
                    let n: usize = files.len();
                    self.stage = Stage::Counted(p, files);
                    ScanAction::Emit(
                        EngineEvent::ScanProgress {
                            source: self.source.clone(),
                            files_seen: n as u64,
                        },
                    )
                },
            },
            (Stage::Counted(p, files), ScanEvent::Sent(ok)) => {
                if !ok {
                    return self.fail(Error::Cancelled);
                }
                let n: usize = files.len();
                self.stage = Stage::Listed(p, files);
                ScanAction::Emit(
                    EngineEvent::ScanComplete { source: self.source.clone(), files: n as u64 },
                )
            },
            (Stage::Listed(p, files), ScanEvent::Sent(ok)) => {
                if !ok || cancelled {
                    return self.fail(Error::Cancelled);
                }
                self.stage = Stage::Indexing(p, files);
                ScanAction::IndexRoots {
                    images: self.cfg.images_root.clone(),
                    videos: self.cfg.videos_root.clone(),
                }
            },
            (Stage::Indexing(p, files), ScanEvent::Indexed(library)) => {
                if cancelled {
                    return self.fail(Error::Cancelled);
                }
                let made = self.make_plan(&p, files, &library);
                let summary = PlanSummary {
                    copies: made.copies(),
                    skips: made.skips(),
                    errors: made.errors(),
                };
                self.stage = Stage::Planned(p, made);
                ScanAction::Emit(EngineEvent::PlanReady { summary })
            },
            (Stage::Planned(p, made), ScanEvent::Sent(ok)) => {
                if !ok || cancelled {
                    return self.fail(Error::Cancelled);
                }
                let profile = shown(&p);
                ScanAction::Complete(ScanResult { plan: made, profile })
            },
            _ => self.fail(Error::Cancelled),
        }
    }
}

// ---------------------------------------------------------------------------
// Laws
// ---------------------------------------------------------------------------

/// A scan looks at nothing before both destination roots are known to be
/// directories: the source is listed and the library indexed only after that.
pub proof fn law_scan_checks_roots_first(s: ScanState, e: ScanInput, cancelled: bool)
    ensures
        s.next(e, cancelled).0.stage is Started ==> s.stage is Checking && e is Roots
            && e->Roots_0 is Directory && e->Roots_1 is Directory,
        s.next(e, cancelled).1 is ListFiles ==> s.stage is Detected,
        s.next(e, cancelled).1 is IndexRoots ==> s.stage is Listed,
        s.next(e, cancelled).0.stage is Probing ==> s.stage is Started,
        s.next(e, cancelled).0.stage is Detected ==> s.stage is Probing,
        s.next(e, cancelled).0.stage is Listed ==> s.stage is Counted,
        s.next(e, cancelled).0.stage is Counted ==> s.stage is Listing,
        s.next(e, cancelled).0.stage is Listing ==> s.stage is Detected,
{
}

/// A scan that is cancelled does not complete.
pub proof fn law_cancelled_scan_fails(s: ScanState, e: ScanInput)
    ensures
        !(s.next(e, true).1 is Complete),
{
}

/// What a scan announces is what its plan holds: every row is a copy, a skip or
/// an error, and the numbers add up.
pub proof fn law_announced_numbers_add_up(p: PlanView)
    requires
        p.items.len() <= u64::MAX,
    ensures
        summary_of(p).copies + summary_of(p).skips + summary_of(p).errors == p.items.len(),
{
    plan::law_counts_cover_the_plan(p.items);
}

} // verus!
