//! The state of the interactive frontend, and what it asks of its surroundings.

use vstd::prelude::*;
use crate::config;
use crate::config::{AppConfig, AppConfigView, EngineConfig, EngineConfigView, RawMode};
use crate::engine::execute;
use crate::events::SyncSummary;
use crate::mount;
use crate::mount::{DetectedMount, MountView};
use crate::path::{self, NativePath, NativeView};
use crate::plan::{PlanView, SyncPlan};
use crate::source::{FilesystemSource, FilesystemSourceView};
use crate::text;
use super::form;
use super::form::{CatalogueForm, FormView};
use super::slots::{Lanes, SlotView, MAX_VISIBLE_SLOTS};

verus! {

/// The screens, in the order in which an import passes them.
#[derive(Debug, Clone, Copy, PartialEq, Eq, Structural)]
pub enum Screen {
    SourceSelect,
    CatalogueSelect,
    CatalogueCreate,
    SaveConfigPrompt,
    Confirm,
    Scan,
    Review,
    Sync,
    Summary,
}

/// The keys that mean something.
#[derive(Debug, Clone, Copy, PartialEq, Eq, Structural)]
pub enum Key {
    Up,
    Down,
    Left,
    Right,
    Enter,
    Esc,
    Backspace,
    Delete,
    PageUp,
    PageDown,
    Char(char),
    Other,
}

// ---------------------------------------------------------------------------
// Scanning and importing
// ---------------------------------------------------------------------------

/// What is known of the scan.
#[derive(Debug)]
pub struct ScanState {
    /// A scan is under way and can be cancelled.
    pub running: bool,
    pub cancelling: bool,
    pub status: String,
    pub files_total: u64,
    pub meta_done: u64,
    pub meta_total: u64,
    /// Why the scan failed; it stays on the screen.
    pub error: Option<String>,
}

/// The contents of a [`ScanState`].
pub struct ScanView {
    pub running: bool,
    pub cancelling: bool,
    pub status: Seq<char>,
    pub files_total: u64,
    pub meta_done: u64,
    pub meta_total: u64,
    pub error: Option<Seq<char>>,
}

impl View for ScanState {
    type V = ScanView;

    open spec fn view(&self) -> ScanView {
        ScanView {
            running: self.running,
            cancelling: self.cancelling,
            status: self.status@,
            files_total: self.files_total,
            meta_done: self.meta_done,
            meta_total: self.meta_total,
            error: text::opt_text(self.error),
        }
    }
}

/// What is known of the import.
#[derive(Debug)]
pub struct SyncState {
    /// An import is under way and can be cancelled.
    pub running: bool,
    pub cancelling: bool,
    pub progress: SyncSummary,
    /// How many files the plan copies; files that are left out do not count.
    pub copy_total: u64,
    pub log: Vec<String>,
    /// All warnings and errors, kept apart from the log, which forgets.
    pub diagnostics: Vec<String>,
    pub lanes: Lanes,
    pub dry_run: bool,
    /// What the import came to, once it is over.
    pub summary: Option<SyncSummary>,
    pub error: Option<String>,
}

/// The contents of a [`SyncState`].
pub struct SyncView {
    pub running: bool,
    pub cancelling: bool,
    pub progress: SyncSummary,
    pub copy_total: u64,
    pub log: Seq<Seq<char>>,
    pub diagnostics: Seq<Seq<char>>,
    pub lanes: Seq<Option<SlotView>>,
    pub dry_run: bool,
    pub summary: Option<SyncSummary>,
    pub error: Option<Seq<char>>,
}

impl View for SyncState {
    type V = SyncView;

    open spec fn view(&self) -> SyncView {
        SyncView {
            running: self.running,
            cancelling: self.cancelling,
            progress: self.progress,
            copy_total: self.copy_total,
            log: text::texts(self.log@),
            diagnostics: text::texts(self.diagnostics@),
            lanes: self.lanes@,
            dry_run: self.dry_run,
            summary: self.summary,
            error: text::opt_text(self.error),
        }
    }
}

/// An import that has done nothing yet.
pub open spec fn no_summary() -> SyncSummary {
    SyncSummary { total: 0, copied: 0, skipped: 0, failed: 0, cancelled: false }
}

/// No scan.
pub open spec fn no_scan() -> ScanView {
    ScanView {
        running: false,
        cancelling: false,
        status: Seq::empty(),
        files_total: 0,
        meta_done: 0,
        meta_total: 0,
        error: None,
    }
}

/// No import.
pub open spec fn no_sync() -> SyncView {
    SyncView {
        running: false,
        cancelling: false,
        progress: no_summary(),
        copy_total: 0,
        log: Seq::empty(),
        diagnostics: Seq::empty(),
        lanes: Seq::empty(),
        dry_run: false,
        summary: None,
        error: None,
    }
}

impl ScanState {
    /// No scan.
    pub fn new() -> (r: Self)
        ensures
            r@ == no_scan(),
    {
        let r = ScanState {
            running: false,
            cancelling: false,
            status: String::new(),
            files_total: 0,
            meta_done: 0,
            meta_total: 0,
            error: None,
        };
        proof {
            assert(r@.status =~= Seq::<char>::empty());
        }
        r
    }
}

impl SyncState {
    /// No import.
    pub fn new() -> (r: Self)
        ensures
            r@ == no_sync(),
    {
        let r = SyncState {
            running: false,
            cancelling: false,
            progress: SyncSummary::default(),
            copy_total: 0,
            log: Vec::new(),
            diagnostics: Vec::new(),
            lanes: Lanes::new(),
            dry_run: false,
            summary: None,
            error: None,
        };
        proof {
            assert(r@.log =~= Seq::<Seq<char>>::empty());
            assert(r@.diagnostics =~= Seq::<Seq<char>>::empty());
        }
        r
    }
}

// ---------------------------------------------------------------------------
// The frontend
// ---------------------------------------------------------------------------

/// The state of the frontend.
#[derive(Debug)]
pub struct App {
    pub cfg: AppConfig,
    pub cfg_path: String,
    pub screen: Screen,
    pub should_quit: bool,
    pub status: Option<String>,
    pub mounts: Vec<DetectedMount>,
    pub source_selection: usize,
    pub manual_path: String,
    pub manual_editing: bool,
    pub catalogue_selection: usize,
    pub selected_catalogue: Option<String>,
    pub form: CatalogueForm,
    pub confirm_action: usize,
    pub save_action: usize,
    pub review_action: usize,
    pub summary_action: usize,
    /// The RAW setting that the configuration file has.
    pub raw_mode_disk: RawMode,
    pub chosen_source: Option<NativePath>,
    pub chosen_label: Option<String>,
    pub detected_profile_name: Option<String>,
    pub scan: ScanState,
    pub plan: Option<SyncPlan>,
    pub plan_source: Option<FilesystemSource>,
    /// The line of the preview that is in view.
    pub review_selected: Option<usize>,
    pub sync: SyncState,
}

/// The contents of an [`App`].
pub struct AppView {
    pub cfg: AppConfigView,
    pub cfg_path: Seq<char>,
    pub screen: Screen,
    pub should_quit: bool,
    pub status: Option<Seq<char>>,
    pub mounts: Seq<MountView>,
    pub source_selection: usize,
    pub manual_path: Seq<char>,
    pub manual_editing: bool,
    pub catalogue_selection: usize,
    pub selected_catalogue: Option<Seq<char>>,
    pub form: FormView,
    pub confirm_action: usize,
    pub save_action: usize,
    pub review_action: usize,
    pub summary_action: usize,
    pub raw_mode_disk: RawMode,
    pub chosen_source: Option<NativeView>,
    pub chosen_label: Option<Seq<char>>,
    pub detected_profile_name: Option<Seq<char>>,
    pub scan: ScanView,
    pub plan: Option<PlanView>,
    pub plan_source: Option<FilesystemSourceView>,
    pub review_selected: Option<usize>,
    pub sync: SyncView,
}

/// The contents of an optional plan.
pub open spec fn opt_plan(p: Option<SyncPlan>) -> Option<PlanView> {
    match p {
        Some(plan) => Some(plan@),
        None => None,
    }
}

/// The contents of an optional source.
pub open spec fn opt_source(s: Option<FilesystemSource>) -> Option<FilesystemSourceView> {
    match s {
        Some(source) => Some(source@),
        None => None,
    }
}

impl View for App {
    type V = AppView;

    open spec fn view(&self) -> AppView {
        AppView {
            cfg: self.cfg@,
            cfg_path: self.cfg_path@,
            screen: self.screen,
            should_quit: self.should_quit,
            status: text::opt_text(self.status),
            mounts: mount::mounts_view(self.mounts@),
            source_selection: self.source_selection,
            manual_path: self.manual_path@,
            manual_editing: self.manual_editing,
            catalogue_selection: self.catalogue_selection,
            selected_catalogue: text::opt_text(self.selected_catalogue),
            form: self.form@,
            confirm_action: self.confirm_action,
            save_action: self.save_action,
            review_action: self.review_action,
            summary_action: self.summary_action,
            raw_mode_disk: self.raw_mode_disk,
            chosen_source: path::opt_native(self.chosen_source),
            chosen_label: text::opt_text(self.chosen_label),
            detected_profile_name: text::opt_text(self.detected_profile_name),
            scan: self.scan@,
            plan: opt_plan(self.plan),
            plan_source: opt_source(self.plan_source),
            review_selected: self.review_selected,
            sync: self.sync@,
        }
    }
}

/// What the frontend asks of its surroundings.
#[derive(Debug)]
#[allow(inconsistent_fields)]
pub enum Action {
    /// Nothing.
    Stay,
    /// See whether a path is a directory, and report it to [`App::source_checked`].
    CheckSource { path: String },
    /// Look for mounted volumes, and report them to [`App::mounts_refreshed`].
    RefreshMounts,
    /// Look for mounted volumes, and hand them to [`App::reset_for_new_run`].
    StartOver,
    /// See what the roots in the form are, and hand it to [`App::try_create_catalogue`].
    CreateCatalogue,
    /// Save the configuration, and report how it went to [`App::config_saved`].
    SaveConfig,
    /// Scan the source of the plan.
    StartScan { config: EngineConfig },
    CancelScan,
    /// Execute a plan on its source.
    StartSync { plan: SyncPlan, config: EngineConfig, dry_run: bool },
    CancelSync,
}

/// The contents of an [`Action`].
#[allow(inconsistent_fields)]
pub enum ActionView {
    Stay,
    CheckSource { path: Seq<char> },
    RefreshMounts,
    StartOver,
    CreateCatalogue,
    SaveConfig,
    StartScan { config: EngineConfigView },
    CancelScan,
    StartSync { plan: PlanView, config: EngineConfigView, dry_run: bool },
    CancelSync,
}

impl View for Action {
    type V = ActionView;

    open spec fn view(&self) -> ActionView {
        match self {
            Action::Stay => ActionView::Stay,
            Action::CheckSource { path } => ActionView::CheckSource { path: path@ },
            Action::RefreshMounts => ActionView::RefreshMounts,
            Action::StartOver => ActionView::StartOver,
            Action::CreateCatalogue => ActionView::CreateCatalogue,
            Action::SaveConfig => ActionView::SaveConfig,
            Action::StartScan { config } => ActionView::StartScan { config: config@ },
            Action::CancelScan => ActionView::CancelScan,
            Action::StartSync { plan, config, dry_run } => ActionView::StartSync {
                plan: plan@,
                config: config@,
                dry_run: *dry_run,
            },
            Action::CancelSync => ActionView::CancelSync,
        }
    }
}

/// A state and what it asks for.
pub type Reaction = (AppView, ActionView);

// ---------------------------------------------------------------------------
// The model
// ---------------------------------------------------------------------------

/// The frontend as it is opened.
pub open spec fn opened(cfg: AppConfigView, cfg_path: Seq<char>, mounts: Seq<MountView>) -> AppView {
    AppView {
        cfg,
        cfg_path,
        screen: Screen::SourceSelect,
        should_quit: false,
        status: None,
        mounts,
        source_selection: 0,
        manual_path: Seq::empty(),
        manual_editing: false,
        catalogue_selection: 0,
        selected_catalogue: None,
        form: form::blank_form(),
        confirm_action: 0,
        save_action: 0,
        review_action: 0,
        summary_action: 1,
        raw_mode_disk: cfg.filters.raw_mode,
        chosen_source: None,
        chosen_label: None,
        detected_profile_name: None,
        scan: no_scan(),
        plan: None,
        plan_source: None,
        review_selected: None,
        sync: no_sync(),
    }
}

/// The name that a source is shown by.
pub open spec fn source_label(p: Seq<char>) -> Seq<char> {
    match path::file_name(p) {
        Some(name) => name,
        None => p,
    }
}

/// How many lanes an import shows.
pub open spec fn lane_count(copy_workers: usize) -> nat {
    if copy_workers < 1 {
        1
    } else if copy_workers > MAX_VISIBLE_SLOTS {
        MAX_VISIBLE_SLOTS as nat
    } else {
        copy_workers as nat
    }
}

/// Lanes that are free.
pub open spec fn idle_lanes(n: nat) -> Seq<Option<SlotView>> {
    Seq::new(n, |i: int| None::<SlotView>)
}

impl AppView {
    /// The state keeps its menus and its form in range, and the bytes of its plan can be
    /// counted.
    pub open spec fn wf(self) -> bool {
        &&& self.form.wf()
        &&& self.confirm_action <= 2
        &&& self.save_action <= 2
        &&& self.review_action <= 2
        &&& self.summary_action <= 1
        &&& self.plan matches Some(p) ==> execute::copy_bytes(p.items) <= u64::MAX
    }

    /// After a source was chosen.
    pub open spec fn with_source(self, p: NativeView) -> AppView {
        AppView {
            detected_profile_name: Some("auto-detected during scan"@),
            chosen_label: Some(source_label(p.text)),
            chosen_source: Some(p),
            selected_catalogue: None,
            catalogue_selection: 0,
            status: None,
            manual_editing: false,
            screen: Screen::CatalogueSelect,
            ..self
        }
    }

    /// Back at the beginning, for another import.
    pub open spec fn reset(self, mounts: Seq<MountView>) -> AppView {
        AppView {
            screen: Screen::SourceSelect,
            chosen_source: None,
            selected_catalogue: None,
            chosen_label: None,
            detected_profile_name: None,
            plan: None,
            plan_source: None,
            scan: ScanView { running: self.scan.running, ..no_scan() },
            sync: SyncView { running: self.sync.running, ..no_sync() },
            status: None,
            mounts,
            source_selection: 0,
            manual_editing: false,
            summary_action: 1,
            ..self
        }
    }

    /// Back at the choice of a catalogue, for a reason.
    pub open spec fn sent_back(self, reason: Seq<char>) -> AppView {
        AppView { status: Some(reason), screen: Screen::CatalogueSelect, ..self }
    }

    /// The source that a scan reads.
    pub open spec fn scan_source(self) -> FilesystemSourceView {
        let root = self.chosen_source->0;
        FilesystemSourceView {
            id: root.text,
            display_name: match self.chosen_label {
                Some(label) => label,
                None => root.text,
            },
            root,
            scan_subdirs: Seq::empty(),
        }
    }

    /// The configuration of a run on the chosen catalogue, or why there is none.
    pub open spec fn run(self, name: Seq<char>) -> std::result::Result<EngineConfigView, Seq<char>> {
        let es = self.cfg.catalogues;
        let requested = text::trimmed(name);
        match config::run_fault(es, requested) {
            None => Ok(config::run_config(self.cfg, es[config::lookup(es, requested)].1)),
            Some(e) => Err(e.message()),
        }
    }

    /// A scan is started, where a source and a good catalogue are chosen.
    pub open spec fn scan_started(self) -> Reaction {
        if self.chosen_source is None {
            (self, ActionView::Stay)
        } else {
            match self.selected_catalogue {
                None => (self.sent_back("no catalogue selected"@), ActionView::Stay),
                Some(name) => match self.run(name) {
                    Err(reason) => (self.sent_back(reason), ActionView::Stay),
                    Ok(run) => (
                        AppView {
                            plan_source: Some(self.scan_source()),
                            scan: ScanView { running: true, status: "starting…"@, ..no_scan() },
                            screen: Screen::Scan,
                            ..self
                        },
                        ActionView::StartScan { config: run },
                    ),
                },
            }
        }
    }

    /// An import is started, where there is a plan and a good catalogue is chosen.
    pub open spec fn sync_started(self, dry_run: bool) -> Reaction {
        match self.selected_catalogue {
            None => (self.sent_back("no catalogue selected"@), ActionView::Stay),
            Some(name) => if self.plan is None || self.plan_source is None {
                (AppView { plan: None, ..self }, ActionView::Stay)
            } else {
                match self.run(name) {
                    Err(reason) => (self.sent_back(reason), ActionView::Stay),
                    Ok(run) => (
                        AppView {
                            plan: None,
                            sync: SyncView {
                                running: true,
                                dry_run,
                                copy_total: crate::plan::count_copies(self.plan->0.items) as u64,
                                lanes: idle_lanes(lane_count(self.cfg.performance.copy_workers)),
                                ..no_sync()
                            },
                            screen: Screen::Sync,
                            ..self
                        },
                        ActionView::StartSync { plan: self.plan->0, config: run, dry_run },
                    ),
                }
            },
        }
    }
}

// ---------------------------------------------------------------------------
// Opening, choosing, starting
// ---------------------------------------------------------------------------

impl App {
    /// The frontend as it is opened.
    pub fn new(cfg: AppConfig, cfg_path: String, mounts: Vec<DetectedMount>) -> (r: Self)
        ensures
            r@ == opened(cfg@, cfg_path@, mount::mounts_view(mounts@)),
            r@.wf(),
    {
        let raw_mode_disk = cfg.filters.raw_mode;
        let r = App {
            cfg,
            cfg_path,
            screen: Screen::SourceSelect,
            should_quit: false,
            status: None,
            mounts,
            source_selection: 0,
            manual_path: String::new(),
            manual_editing: false,
            catalogue_selection: 0,
            selected_catalogue: None,
            form: CatalogueForm::new(),
            confirm_action: 0,
            save_action: 0,
            review_action: 0,
            summary_action: 1,
            raw_mode_disk,
            chosen_source: None,
            chosen_label: None,
            detected_profile_name: None,
            scan: ScanState::new(),
            plan: None,
            plan_source: None,
            review_selected: None,
            sync: SyncState::new(),
        };
        proof {
            assert(r@.manual_path =~= Seq::<char>::empty());
        }
        r
    }

    /// Chooses a source and goes on to the catalogues.
    pub fn choose_source(&mut self, p: NativePath)
        ensures
            final(self)@ == old(self)@.with_source(p@),
            old(self)@.wf() ==> final(self)@.wf(),
    {
        let label = match path::file_name_of(p.text.as_str()) {
            Some(name) => name,
            None => p.text.clone(),
        };
        self.detected_profile_name = Some(text::copy_str("auto-detected during scan"));
        self.chosen_label = Some(label);
        self.chosen_source = Some(p);
        self.selected_catalogue = None;
        self.catalogue_selection = 0;
        self.status = None;
        self.manual_editing = false;
        self.screen = Screen::CatalogueSelect;
    }

    /// Goes back to the beginning, with what volumes are mounted now. Whether a scan or an
    /// import still runs does not change.
    pub fn reset_for_new_run(&mut self, mounts: Vec<DetectedMount>)
        ensures
            final(self)@ == old(self)@.reset(mount::mounts_view(mounts@)),
            old(self)@.wf() ==> final(self)@.wf(),
    {
        let scanning = self.scan.running;
        let importing = self.sync.running;
        self.screen = Screen::SourceSelect;
        self.chosen_source = None;
        self.selected_catalogue = None;
        self.chosen_label = None;
        self.detected_profile_name = None;
        self.plan = None;
        self.plan_source = None;
        self.scan = ScanState::new();
        self.scan.running = scanning;
        self.sync = SyncState::new();
        self.sync.running = importing;
        self.status = None;
        self.mounts = mounts;
        self.source_selection = 0;
        self.manual_editing = false;
        self.summary_action = 1;
    }

    pub(super) fn send_back(&mut self, reason: String)
        ensures
            final(self)@ == old(self)@.sent_back(reason@),
    {
        self.status = Some(reason);
        self.screen = Screen::CatalogueSelect;
    }

    fn run_config(&self, name: &str) -> (r: std::result::Result<EngineConfig, String>)
        ensures
            match r {
                Ok(run) => self@.run(name@) == Ok::<EngineConfigView, Seq<char>>(run@),
                Err(reason) => self@.run(name@) == Err::<EngineConfigView, Seq<char>>(reason@),
            },
    {
        match EngineConfig::try_from_catalogue(&self.cfg, name) {
            Ok(run) => Ok(run),
            Err(e) => Err(e.to_string()),
        }
    }

    /// Starts the scan of the chosen source for the chosen catalogue.
    pub fn start_scan(&mut self) -> (r: Action)
        ensures
            (final(self)@, r@) == old(self)@.scan_started(),
            old(self)@.wf() ==> final(self)@.wf(),
    {
        let source = match &self.chosen_source {
            Some(root) => {
                let label = match &self.chosen_label {
                    Some(label) => label.as_str(),
                    None => root.text.as_str(),
                };
                FilesystemSource::new(root.text.as_str(), label, root.clone())
            },
            None => {
                return Action::Stay;
            },
        };
        let run = match &self.selected_catalogue {
            Some(name) => self.run_config(name.as_str()),
            None => Err(text::copy_str("no catalogue selected")),
        };
        match run {
            Ok(run) => {
                self.plan_source = Some(source);
                let mut scan = ScanState::new();
                scan.running = true;
                scan.status = text::copy_str("starting…");
                self.scan = scan;
                self.screen = Screen::Scan;
                Action::StartScan { config: run }
            },
            Err(reason) => {
                self.send_back(reason);
                Action::Stay
            },
        }
    }

    /// Starts the import of the plan into the chosen catalogue.
    pub fn start_sync(&mut self, dry_run: bool) -> (r: Action)
        ensures
            (final(self)@, r@) == old(self)@.sync_started(dry_run),
            old(self)@.wf() ==> final(self)@.wf(),
    {
        let run = match &self.selected_catalogue {
            Some(name) => self.run_config(name.as_str()),
            None => {
                self.send_back(text::copy_str("no catalogue selected"));
                return Action::Stay;
            },
        };
        if self.plan.is_none() || self.plan_source.is_none() {
            self.plan = None;
            return Action::Stay;
        }
        let run = match run {
            Ok(run) => run,
            Err(reason) => {
                self.send_back(reason);
                return Action::Stay;
            },
        };
        let mut taken: Option<SyncPlan> = None;
        std::mem::swap(&mut taken, &mut self.plan);
        match taken {
            Some(plan) => {
                let workers: usize = self.cfg.performance.copy_workers;
                let n: usize = if workers < 1 {
                    1
                } else if workers > MAX_VISIBLE_SLOTS {
                    MAX_VISIBLE_SLOTS
                } else {
                    workers
                };
                let mut sync = SyncState::new();
                sync.running = true;
                sync.dry_run = dry_run;
                sync.copy_total = plan.copies();
                sync.lanes = Lanes::idle(n);
                self.sync = sync;
                self.screen = Screen::Sync;
                Action::StartSync { plan, config: run, dry_run }
            },
            None => Action::Stay,
        }
    }
}

} // verus!
