//! Executing a plan, up to the point where files are touched: the destination
//! roots are checked and locked, and the start is announced.

use vstd::prelude::*;
use crate::config::{EngineConfig, EngineConfigView};
use crate::error::{Error, ErrorView};
use crate::events::{
    self, EngineEvent, EventView, FileOutcome, OutcomeView, PlannedAction, PlannedFile, PlannedFileView,
    WarningKind,
};
use crate::path;
use crate::plan::SyncPlan;
use crate::roots::{self, LockResult, RootState};
use crate::text;
use super::ExecuteOptions;

verus! {

/// The bytes of all files that are to be copied.
pub open spec fn copy_bytes(items: Seq<PlannedFileView>) -> nat
    decreases items.len(),
{
    if items.len() == 0 {
        0
    } else {
        copy_bytes(items.drop_last()) + if items.last().action == PlannedAction::Copy {
            items.last().source_size as nat
        } else {
            0nat
        }
    }
}

proof fn lemma_copy_bytes_grows(items: Seq<PlannedFileView>, n: int)
    requires
        0 <= n <= items.len(),
    ensures
        copy_bytes(items.take(n)) <= copy_bytes(items),
    decreases items.len() - n,
{
    if n == items.len() {
        assert(items.take(n) =~= items);
    } else {
        lemma_copy_bytes_grows(items, n + 1);
        assert(items.take(n + 1).drop_last() =~= items.take(n));
    }
}

/// The bytes of all files that are to be copied.
pub fn total_copy_bytes(plan: &SyncPlan) -> (r: u64)
    requires
        copy_bytes(plan@.items) <= u64::MAX,
    ensures
        r == copy_bytes(plan@.items),
{
    let ghost all = plan@.items;
    let mut n: u64 = 0;
    let mut i: usize = 0;
    while i < plan.items.len()
        invariant
            i <= plan.items@.len(),
            all == plan@.items,
            copy_bytes(all) <= u64::MAX,
            n == copy_bytes(all.take(i as int)),
        decreases plan.items@.len() - i,
    {
        proof {
            assert(all.take(i + 1).drop_last() =~= all.take(i as int));
            assert(all.take(i + 1).last() == plan.items@[i as int]@);
            lemma_copy_bytes_grows(all, i + 1);
        }
        if plan.items[i].action == PlannedAction::Copy {
            n += plan.items[i].source_size;
        }
        i += 1;
    }
    proof {
        assert(all.take(all.len() as int) =~= all);
    }
    n
}

/// Whether the bytes of all files that are to be copied can be counted, and
/// how many they are.
pub fn checked_copy_bytes(plan: &SyncPlan) -> (r: Option<u64>)
    ensures
        r == if copy_bytes(plan@.items) <= u64::MAX {
            Some(copy_bytes(plan@.items) as u64)
        } else {
            None
        },
{
    let ghost all = plan@.items;
    let mut n: u64 = 0;
    let mut i: usize = 0;
    while i < plan.items.len()
        invariant
            i <= plan.items@.len(),
            all == plan@.items,
            n == copy_bytes(all.take(i as int)),
        decreases plan.items@.len() - i,
    {
        proof {
            assert(all.take(i + 1).drop_last() =~= all.take(i as int));
            assert(all.take(i + 1).last() == plan.items@[i as int]@);
            lemma_copy_bytes_grows(all, i + 1);
        }
        if plan.items[i].action == PlannedAction::Copy {
            match n.checked_add(plan.items[i].source_size) {
                Some(sum) => {
                    n = sum;
                },
                None => {
                    return None;
                },
            }
        }
        i += 1;
    }
    proof {
        assert(all.take(all.len() as int) =~= all);
    }
    Some(n)
}

/// The outcome of a file that was decided when the plan was made.
pub open spec fn decided_outcome(p: PlannedFileView) -> OutcomeView {
    if p.action == PlannedAction::Error {
        OutcomeView::Failed {
            error: match p.reason {
                Some(m) => m,
                None => "planning error"@,
            },
        }
    } else {
        OutcomeView::Skipped {
            reason: match p.reason {
                Some(m) => m,
                None => "skipped"@,
            },
        }
    }
}

/// The outcome of a file that was decided when the plan was made.
pub fn outcome_of_decided(p: &PlannedFile) -> (r: FileOutcome)
    ensures
        r@ == decided_outcome(p@),
{
    if p.action == PlannedAction::Error {
        let error = match &p.reason {
            Some(m) => m.clone(),
            None => text::copy_str("planning error"),
        };
        FileOutcome::Failed { error }
    } else {
        let reason = match &p.reason {
            Some(m) => m.clone(),
            None => text::copy_str("skipped"),
        };
        FileOutcome::Skipped { reason }
    }
}

/// What is to be done next.
#[derive(Debug)]
#[allow(inconsistent_fields)]
pub enum SetupAction {
    /// Ask what the two destination roots are. Answered by `Roots`.
    CheckRoots { images: String, videos: String },
    /// Lock a destination root without waiting. Answered by `Lock`.
    Lock { root: String },
    /// Send an event. Answered by `Sent`.
    Emit(EngineEvent),
    /// The execution failed.
    Fail(Error),
    /// Show what would happen.
    RunDry,
    /// Copy the files.
    RunStaging,
}

/// The contents of a [`SetupAction`].
#[allow(inconsistent_fields)]
pub enum SetupActionView {
    CheckRoots { images: Seq<char>, videos: Seq<char> },
    Lock { root: Seq<char> },
    Emit(EventView),
    Fail(ErrorView),
    RunDry,
    RunStaging,
}

impl View for SetupAction {
    type V = SetupActionView;

    open spec fn view(&self) -> SetupActionView {
        match self {
            SetupAction::CheckRoots { images, videos } => SetupActionView::CheckRoots {
                images: images@,
                videos: videos@,
            },
            SetupAction::Lock { root } => SetupActionView::Lock { root: root@ },
            SetupAction::Emit(e) => SetupActionView::Emit(e@),
            SetupAction::Fail(e) => SetupActionView::Fail(e@),
            SetupAction::RunDry => SetupActionView::RunDry,
            SetupAction::RunStaging => SetupActionView::RunStaging,
        }
    }
}

/// What came of the last action.
#[derive(Debug)]
pub enum SetupEvent {
    Start,
    Roots(RootState, RootState),
    Lock(LockResult),
    /// Whether anyone still listens.
    Sent(bool),
}

/// Where the setup stands: what was asked for last.
#[derive(Debug, Clone, Copy, PartialEq, Eq, Structural)]
pub enum SetupStage {
    Ready,
    /// The roots are being checked.
    Checking,
    /// A root is being locked.
    Locking(usize),
    /// The start was announced.
    Announced,
    /// A warning was sent.
    Warning(usize),
    Over,
}

/// The state of the setup of an execution.
pub struct SetupState {
    pub cfg: EngineConfigView,
    pub dry_run: bool,
    pub total_files: u64,
    pub total_bytes: u64,
    pub stage: SetupStage,
}

/// The error for a root that could not be locked.
pub open spec fn lock_fault(root: Seq<char>, r: LockResult) -> Option<ErrorView> {
    match r {
        LockResult::Locked => None,
        LockResult::WouldBlock => Some(ErrorView::DestinationLocked { path: root }),
        LockResult::Failed(m) => Some(
            ErrorView::Io { path: path::join(root, ".imagesync.lock"@), source: m@ },
        ),
    }
}

impl SetupState {
    pub open spec fn at(self, stage: SetupStage) -> SetupState {
        SetupState { stage, ..self }
    }

    pub open spec fn fail(self, e: ErrorView) -> (SetupState, SetupActionView) {
        (self.at(SetupStage::Over), SetupActionView::Fail(e))
    }

    /// The roots to lock.
    pub open spec fn roots(self) -> Seq<Seq<char>> {
        roots::locked_roots(self.cfg.images_root, self.cfg.videos_root)
    }

    /// The start is announced.
    pub open spec fn announce(self) -> (SetupState, SetupActionView) {
        (
            self.at(SetupStage::Announced),
            SetupActionView::Emit(
                EventView::ExecutionStarted {
                    total_files: self.total_files,
                    total_bytes: self.total_bytes,
                    dry_run: self.dry_run,
                },
            ),
        )
    }

    /// The next root is locked.
    pub open spec fn lock(self, k: int) -> (SetupState, SetupActionView) {
        if k >= self.roots().len() {
            self.announce()
        } else {
            (
                self.at(SetupStage::Locking(k as usize)),
                SetupActionView::Lock { root: self.roots()[k] },
            )
        }
    }

    /// The setup is over.
    pub open spec fn go(self) -> (SetupState, SetupActionView) {
        (
            self.at(SetupStage::Over),
            if self.dry_run {
                SetupActionView::RunDry
            } else {
                SetupActionView::RunStaging
            },
        )
    }

    /// The next warning is sent.
    pub open spec fn warn(self, k: int) -> (SetupState, SetupActionView) {
        if k >= self.cfg.template_warnings.len() {
            self.go()
        } else {
            (
                self.at(SetupStage::Warning(k as usize)),
                SetupActionView::Emit(
                    EventView::Warning {
                        kind: WarningKind::Template,
                        message: self.cfg.template_warnings[k],
                        file: None,
                    },
                ),
            )
        }
    }

    /// The state and action that follow an event. Nothing is locked below a
    /// root that was not checked, and nothing at all for a dry run.
    pub open spec fn next(self, e: SetupEvent, cancelled: bool) -> (SetupState, SetupActionView) {
        match (self.stage, e) {
            (SetupStage::Ready, SetupEvent::Start) => (
                self.at(SetupStage::Checking),
                SetupActionView::CheckRoots {
                    images: self.cfg.images_root,
                    videos: self.cfg.videos_root,
                },
            ),
            (SetupStage::Checking, SetupEvent::Roots(images, videos)) => {
                let a = roots::root_fault(self.cfg.images_root, "images_root"@, images);
                let b = roots::root_fault(self.cfg.videos_root, "videos_root"@, videos);
                if a is Some {
                    self.fail(a->0)
                } else if b is Some {
                    self.fail(b->0)
                } else if self.dry_run {
                    self.announce()
                } else {
                    self.lock(0)
                }
            },
            (SetupStage::Locking(k), SetupEvent::Lock(r)) => {
                let fault = lock_fault(self.roots()[k as int], r);
                if fault is Some {
                    self.fail(fault->0)
                } else {
                    self.lock(k + 1)
                }
            },
            (SetupStage::Announced, SetupEvent::Sent(_)) => if cancelled {
                self.go()
            } else {
                self.warn(0)
            },
            (SetupStage::Warning(k), SetupEvent::Sent(ok)) => if !ok {
                self.go()
            } else {
                self.warn(k + 1)
            },
            _ => self.fail(ErrorView::Cancelled),
        }
    }

    /// The numbers of the stage stand for roots and warnings that are there.
    pub open spec fn wf(self) -> bool {
        match self.stage {
            SetupStage::Locking(k) => !self.dry_run && k < self.roots().len(),
            SetupStage::Warning(k) => k < self.cfg.template_warnings.len(),
            _ => true,
        }
    }
}

/// The setup of an execution.
#[derive(Debug)]
pub struct SetupRun {
    cfg: EngineConfig,
    dry_run: bool,
    total_files: u64,
    total_bytes: u64,
    stage: SetupStage,
}

impl View for SetupRun {
    type V = SetupState;

    closed spec fn view(&self) -> SetupState {
        SetupState {
            cfg: self.cfg@,
            dry_run: self.dry_run,
            total_files: self.total_files,
            total_bytes: self.total_bytes,
            stage: self.stage,
        }
    }
}

impl SetupRun {
    /// The setup of the execution of a plan.
    pub fn new(cfg: EngineConfig, plan: &SyncPlan, opts: &ExecuteOptions) -> (r: Self)
        requires
            copy_bytes(plan@.items) <= u64::MAX,
        ensures
            r@ == (SetupState {
                cfg: cfg@,
                dry_run: opts.dry_run,
                total_files: plan@.items.len() as u64,
                total_bytes: copy_bytes(plan@.items) as u64,
                stage: SetupStage::Ready,
            }),
            r@.wf(),
    {
        SetupRun {
            cfg,
            dry_run: opts.dry_run,
            total_files: plan.items.len() as u64,
            total_bytes: total_copy_bytes(plan),
            stage: SetupStage::Ready,
        }
    }

    fn fail(&mut self, e: Error) -> (r: SetupAction)
        ensures
            final(self)@ == old(self)@.fail(e@).0,
            r@ == old(self)@.fail(e@).1,
    {
        self.stage = SetupStage::Over;
        SetupAction::Fail(e)
    }

    fn announce(&mut self) -> (r: SetupAction)
        ensures
            final(self)@ == old(self)@.announce().0,
            r@ == old(self)@.announce().1,
    {
        self.stage = SetupStage::Announced;
        SetupAction::Emit(
            EngineEvent::ExecutionStarted {
                total_files: self.total_files,
                total_bytes: self.total_bytes,
                dry_run: self.dry_run,
            },
        )
    }

    fn lock(&mut self, k: usize) -> (r: SetupAction)
        ensures
            final(self)@ == old(self)@.lock(k as int).0,
            r@ == old(self)@.lock(k as int).1,
    {
        let order = roots::lock_order(
            self.cfg.images_root.as_str(),
            self.cfg.videos_root.as_str(),
        );
        proof {
            assert(text::texts(order@).len() == order@.len());
        }
        if k >= order.len() {
            return self.announce();
        }
        self.stage = SetupStage::Locking(k);
        proof {
            assert(text::texts(order@)[k as int] == order@[k as int]@);
        }
        SetupAction::Lock { root: order[k].clone() }
    }

    fn go(&mut self) -> (r: SetupAction)
        ensures
            final(self)@ == old(self)@.go().0,
            r@ == old(self)@.go().1,
    {
        self.stage = SetupStage::Over;
        if self.dry_run {
            SetupAction::RunDry
        } else {
            SetupAction::RunStaging
        }
    }

    fn warn(&mut self, k: usize) -> (r: SetupAction)
        ensures
            final(self)@ == old(self)@.warn(k as int).0,
            r@ == old(self)@.warn(k as int).1,
    {
        if k >= self.cfg.template_warnings.len() {
            return self.go();
        }
        self.stage = SetupStage::Warning(k);
        SetupAction::Emit(
            EngineEvent::Warning {
                kind: WarningKind::Template,
                message: self.cfg.template_warnings[k].clone(),
                file: None,
            },
        )
    }

    fn on_roots(&mut self, images: &RootState, videos: &RootState) -> (r: SetupAction)
        requires
            old(self)@.stage is Checking,
        ensures
            forall|cancelled: bool|
                final(self)@ == (#[trigger] old(self)@.next(
                    SetupEvent::Roots(*images, *videos),
                    cancelled,
                )).0 && r@ == old(self)@.next(SetupEvent::Roots(*images, *videos), cancelled).1,
    {
        match roots::check_dest_root(self.cfg.images_root.as_str(), "images_root", images) {
            Ok(_) => {},
            Err(e) => {
                return self.fail(e);
            },
        }
        match roots::check_dest_root(self.cfg.videos_root.as_str(), "videos_root", videos) {
            Ok(_) => {},
            Err(e) => {
                return self.fail(e);
            },
        }
        if self.dry_run {
            self.announce()
        } else {
            self.lock(0)
        }
    }

    fn on_lock(&mut self, k: usize, result: &LockResult) -> (r: SetupAction)
        requires
            old(self)@.stage == SetupStage::Locking(k),
            old(self)@.wf(),
        ensures
            forall|cancelled: bool|
                final(self)@ == (#[trigger] old(self)@.next(SetupEvent::Lock(*result), cancelled)).0
                    && r@ == old(self)@.next(SetupEvent::Lock(*result), cancelled).1,
    {
        let order = roots::lock_order(
            self.cfg.images_root.as_str(),
            self.cfg.videos_root.as_str(),
        );
        proof {
            assert(text::texts(order@).len() == order@.len());
            assert(text::texts(order@)[k as int] == order@[k as int]@);
        }
        match roots::lock_outcome(order[k].as_str(), result) {
            Ok(_) => self.lock(k + 1),
            Err(e) => self.fail(e),
        }
    }

    /// Takes what came of the last action and says what is to be done next.
    /// `cancelled` tells whether the run is to stop.
    pub fn step(&mut self, event: SetupEvent, cancelled: bool) -> (r: SetupAction)
        requires
            old(self)@.wf(),
        ensures
            final(self)@ == old(self)@.next(event, cancelled).0,
            r@ == old(self)@.next(event, cancelled).1,
            final(self)@.wf(),
    {
        let warnings: usize = self.cfg.template_warnings.len();
        proof {
            assert(self@.cfg.template_warnings.len() == warnings);
        }
        match (self.stage, event) {
            (SetupStage::Ready, SetupEvent::Start) => {
                self.stage = SetupStage::Checking;
                SetupAction::CheckRoots {
                    images: self.cfg.images_root.clone(),
                    videos: self.cfg.videos_root.clone(),
                }
            },
            (SetupStage::Checking, SetupEvent::Roots(images, videos)) => self.on_roots(
                &images,
                &videos,
            ),
            (SetupStage::Locking(k), SetupEvent::Lock(result)) => self.on_lock(k, &result),
            (SetupStage::Announced, SetupEvent::Sent(_)) => {
                if cancelled {
                    self.go()
                } else {
                    self.warn(0)
                }
            },
            (SetupStage::Warning(k), SetupEvent::Sent(ok)) => {
                if !ok {
                    self.go()
                } else {
                    self.warn(k + 1)
                }
            },
            _ => self.fail(Error::Cancelled),
        }
    }
}

/// A run that copies files starts only with every destination root checked and
/// locked, and a dry run locks none.
pub proof fn law_roots_are_checked_and_locked_first(s: SetupState, e: SetupEvent, cancelled: bool)
    requires
        s.wf(),
    ensures
        s.next(e, cancelled).1 is Lock ==> !s.dry_run,
        s.next(e, cancelled).0.stage is Announced ==> (s.stage is Checking && e is Roots
            && e->Roots_0 is Directory && e->Roots_1 is Directory && s.dry_run) || (
        s.stage matches SetupStage::Locking(k) && k == s.roots().len() - 1 && e is Lock
            && e->Lock_0 is Locked),
        s.next(e, cancelled).0.stage matches SetupStage::Locking(k) ==> (k == 0
            && s.stage is Checking && e is Roots && e->Roots_0 is Directory && e->Roots_1 is Directory)
            || (k > 0 && s.stage == SetupStage::Locking((k - 1) as usize) && e is Lock
            && e->Lock_0 is Locked),
        s.next(e, cancelled).1 is RunStaging || s.next(e, cancelled).1 is RunDry
            ==> s.stage is Announced || s.stage is Warning,
{
}

/// The rows of files that are not to be copied, in order.
pub open spec fn decided_rows(items: Seq<PlannedFileView>) -> Seq<PlannedFileView>
    decreases items.len(),
{
    if items.len() == 0 {
        Seq::empty()
    } else if items.last().action != PlannedAction::Copy {
        decided_rows(items.drop_last()).push(items.last())
    } else {
        decided_rows(items.drop_last())
    }
}

/// The rows of files that are not to be copied.
pub fn rows_decided(items: &Vec<PlannedFile>) -> (r: Vec<PlannedFile>)
    ensures
        events::planned_view(r@) == decided_rows(events::planned_view(items@)),
{
    let ghost all = events::planned_view(items@);
    let mut out: Vec<PlannedFile> = Vec::new();
    let mut i: usize = 0;
    proof {
        assert(events::planned_view(out@) =~= decided_rows(all.take(0)));
    }
    while i < items.len()
        invariant
            i <= items@.len(),
            all == events::planned_view(items@),
            events::planned_view(out@) == decided_rows(all.take(i as int)),
        decreases items@.len() - i,
    {
        proof {
            assert(all.take(i + 1).drop_last() =~= all.take(i as int));
            assert(all.take(i + 1).last() == items@[i as int]@);
        }
        if items[i].action != PlannedAction::Copy {
            let p = items[i].clone();
            proof {
                assert(events::planned_view(out@.push(p)) =~= events::planned_view(out@).push(p@));
            }
            out.push(p);
        }
        i += 1;
    }
    proof {
        assert(all.take(all.len() as int) =~= all);
    }
    out
}

} // verus!
