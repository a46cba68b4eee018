use imagesync::config::{AppConfig, CatalogueConfig, RawMode};
use imagesync::engine::ScanResult;
use imagesync::error::Error;
use imagesync::events::{
    DetectedProfile, EngineEvent, FileId, FileOutcome, FilePhase, MediaKindWire, PlanSummary,
    PlannedAction, PlannedFile, SyncSummary, WarningKind,
};
use imagesync::mount::{DetectedMount, MountRank};
use imagesync::path::NativePath;
use imagesync::plan::SyncPlan;
use imagesync::roots::RootState;
use imagesync::source::SourceId;
use imagesync::tui::form::{CatalogueCreateItem, CatalogueForm};
use imagesync::tui::menus::Content;
use imagesync::tui::panels::{is_countable, needs_scrollbar};
use imagesync::tui::progress::{ScanEnd, SyncEnd};
use imagesync::tui::review::{build_review_items, build_review_tree};
use imagesync::tui::slots::Lanes;
use imagesync::tui::state::{Action, App, Key, Screen};
use imagesync::tui::style::{Line, Page, Tone};

const CONFIG_PATH: &str = "/tmp/imagesync/config.toml";

fn app() -> App {
    App::new(AppConfig::default(), CONFIG_PATH.to_string(), Vec::new())
}

fn fill_valid_catalogue(app: &mut App, name: &str) {
    app.form.name = name.to_string();
    app.form.images_root = "/lib/images".to_string();
    app.form.videos_root = "/lib/videos".to_string();
    app.form.images_template = "{yyyy}/images".to_string();
    app.form.videos_template = "{yyyy}/videos".to_string();
}

/// Creates the catalogue of the form, with both roots there and a save that works.
fn create(app: &mut App) {
    if let Some((candidate, key)) = app.try_create_catalogue(&RootState::Directory, &RootState::Directory) {
        app.catalogue_saved(candidate, key, Ok(()));
    }
}

fn shown(line: &Line) -> String {
    line.spans.iter().map(|s| s.text.as_str()).collect()
}

fn page(p: &Page) -> Vec<String> {
    p.lines.iter().map(shown).collect()
}

fn with_catalogue(name: &str) -> AppConfig {
    let mut cfg = AppConfig::default();
    cfg.catalogues.insert(
        name.to_string(),
        CatalogueConfig {
            images_root: "/lib/images".to_string(),
            videos_root: "/lib/videos".to_string(),
            images_template: "{yyyy}".to_string(),
            videos_template: "{yyyy}/{mm}".to_string(),
        },
    );
    cfg
}

fn planned(rel: &str, size: u64, kind: MediaKindWire, action: PlannedAction) -> PlannedFile {
    PlannedFile {
        source: SourceId("card".to_string()),
        source_rel_path: rel.to_string(),
        source_size: size,
        kind,
        action,
        dest_path: None,
        datetime: None,
        date_source: None,
        reason: None,
    }
}

fn file(rel: &str) -> FileId {
    FileId { source: SourceId("card".to_string()), rel_path: rel.to_string() }
}

fn small_plan() -> SyncPlan {
    SyncPlan {
        items: vec![
            planned("DCIM/B.ARW", 2048, MediaKindWire::RawImage, PlannedAction::Copy),
            planned("DCIM/A.JPG", 1024, MediaKindWire::Image, PlannedAction::Copy),
            planned("TOP.MP4", 10, MediaKindWire::Video, PlannedAction::Copy),
            planned("DCIM/OLD.JPG", 99, MediaKindWire::Image, PlannedAction::SkipExists),
        ],
        units: Vec::new(),
    }
}

fn scanned() -> ScanEnd {
    ScanEnd::Done(ScanResult {
        plan: small_plan(),
        profile: DetectedProfile { id: "x".to_string(), display_name: "X100".to_string() },
    })
}

fn at_confirmation() -> App {
    let mut app = App::new(with_catalogue("Photos"), CONFIG_PATH.to_string(), Vec::new());
    app.choose_source(NativePath::of_text("/media/card"));
    app.on_key(Key::Enter, false);
    assert_eq!(app.screen, Screen::Confirm);
    app
}

fn at_review() -> App {
    let mut app = at_confirmation();
    assert!(matches!(app.on_key(Key::Enter, false), Action::StartScan { .. }));
    assert!(matches!(app.scan_finished(scanned()), Action::Stay));
    app
}

#[test]
fn source_selection_always_opens_catalogue_selection() {
    let mut app = app();

    assert_eq!(app.screen, Screen::SourceSelect);
    app.choose_source(NativePath::of_text("/tmp/imagesync/source"));
    assert_eq!(app.screen, Screen::CatalogueSelect);
    assert_eq!(app.catalogue_selection, 0);
    assert!(app.selected_catalogue.is_none());
    assert_eq!(app.chosen_label.as_deref(), Some("source"));
}

#[test]
fn catalogue_creation_cancel_resets_form_without_writing() {
    let mut app = app();
    app.screen = Screen::CatalogueCreate;
    app.form.name = "Discarded".to_string();
    app.form.images_root = "/tmp/images".to_string();
    app.form.images_template = "changed".to_string();

    assert!(matches!(app.on_key(Key::Esc, false), Action::Stay));

    assert_eq!(app.screen, Screen::CatalogueSelect);
    assert!(app.form.name.is_empty());
    assert!(app.form.images_root.is_empty());
    assert_eq!(app.form.images_template, "{yyyy}/{yyyy}-{mm}-{dd}");
    assert!(app.cfg.catalogues.is_empty());
}

#[test]
fn invalid_catalogue_values_stay_in_form_and_write_nothing() {
    let mut app = app();
    app.screen = Screen::CatalogueCreate;

    fill_valid_catalogue(&mut app, " ");
    assert!(app.try_create_catalogue(&RootState::Directory, &RootState::Directory).is_none());
    assert_eq!(
        app.status.as_deref(),
        Some("config error: catalogue name must not be empty")
    );

    app.form.name = "Missing".to_string();
    app.form.images_root = "/lib/missing".to_string();
    assert!(app.try_create_catalogue(&RootState::Missing, &RootState::Directory).is_none());
    assert!(app.status.as_deref().unwrap().contains("destination root not found"));

    fill_valid_catalogue(&mut app, "Bad template");
    app.form.images_template = "{unknown}".to_string();
    assert!(app.try_create_catalogue(&RootState::Directory, &RootState::Directory).is_none());
    assert!(app.status.as_deref().unwrap().contains("invalid"));

    assert_eq!(app.screen, Screen::CatalogueCreate);
    assert!(app.cfg.catalogues.is_empty());
}

#[test]
fn catalogue_save_failure_keeps_live_config_and_form_untouched() {
    let mut app = app();
    app.screen = Screen::CatalogueCreate;
    fill_valid_catalogue(&mut app, "Photos");

    let (candidate, key) = app
        .try_create_catalogue(&RootState::Directory, &RootState::Directory)
        .unwrap();
    app.catalogue_saved(candidate, key, Err(Error::io("/tmp/config-target", "is a directory")));

    assert_eq!(app.screen, Screen::CatalogueCreate);
    assert!(app.cfg.catalogues.is_empty());
    assert_eq!(app.form.name, "Photos");
    assert!(app.status.as_deref().unwrap().contains("io error"));
}

#[test]
fn successful_creation_selection_and_new_import_flow() {
    let mut app = app();
    app.choose_source(NativePath::of_text("/tmp/imagesync/source"));
    app.on_key(Key::Enter, false);
    assert_eq!(app.screen, Screen::CatalogueCreate);
    fill_valid_catalogue(&mut app, "Photos");

    create(&mut app);

    assert_eq!(app.screen, Screen::CatalogueSelect);
    assert_eq!(app.catalogue_selection, 0);
    assert!(app.selected_catalogue.is_none());
    assert_eq!(app.cfg.catalogues.len(), 1);
    assert_eq!(app.status.as_deref(), Some("saved catalogue \"Photos\""));

    app.on_key(Key::Enter, false);
    assert_eq!(app.screen, Screen::Confirm);
    assert_eq!(app.selected_catalogue.as_deref(), Some("Photos"));

    app.confirm_action = 2;
    app.on_key(Key::Enter, false);
    assert_eq!(app.screen, Screen::CatalogueSelect);
    assert_eq!(app.selected_catalogue.as_deref(), Some("Photos"));

    app.screen = Screen::Summary;
    app.summary_action = 0;
    assert!(matches!(app.on_key(Key::Enter, false), Action::StartOver));
    app.reset_for_new_run(Vec::new());
    assert_eq!(app.screen, Screen::SourceSelect);
    assert!(app.chosen_source.is_none());
    assert!(app.selected_catalogue.is_none());
    assert!(app.plan.is_none());
    assert!(app.plan_source.is_none());
}

#[test]
fn confirm_value_changes_only_with_horizontal_arrows() {
    let mut app = app();
    app.screen = Screen::Confirm;
    app.confirm_action = 1;

    app.on_key(Key::Enter, false);
    assert_eq!(app.cfg.filters.raw_mode, RawMode::All);
    assert_eq!(app.screen, Screen::Confirm);

    app.on_key(Key::Right, false);
    assert_eq!(app.cfg.filters.raw_mode, RawMode::RawOnly);
    app.on_key(Key::Left, false);
    assert_eq!(app.cfg.filters.raw_mode, RawMode::All);
}

#[test]
fn catalogue_fields_are_edited_without_entering_a_focus_mode() {
    let mut app = app();
    app.screen = Screen::CatalogueCreate;

    app.on_key(Key::Char('P'), false);
    app.on_key(Key::Enter, false);
    app.on_key(Key::Char('h'), false);

    assert_eq!(app.form.name, "Ph");
    assert_eq!(app.screen, Screen::CatalogueCreate);
}

#[test]
fn summary_defaults_to_quit() {
    let app = app();

    assert_eq!(app.summary_action, 1);
}

#[test]
fn the_cursor_edits_within_a_field() {
    let mut form = CatalogueForm::new();
    for c in "äbc".chars() {
        form.insert(c);
    }
    form.cursor_left();
    form.cursor_left();
    form.insert('ö');
    assert_eq!(form.name, "äöbc");
    form.backspace();
    assert_eq!(form.name, "äbc");
    form.delete();
    assert_eq!(form.name, "äc");
    form.cursor_right();
    form.cursor_right();
    assert_eq!(form.cursor, 2);
    form.select(CatalogueCreateItem::VideosTemplate);
    assert_eq!(form.cursor, 23);
    form.select(CatalogueCreateItem::Back);
    form.insert('x');
    assert_eq!(form.cursor, 0);
}

#[test]
fn rows_of_the_form_are_walked_from_end_to_end() {
    let mut item = CatalogueCreateItem::Name;
    for i in 0..7 {
        assert_eq!(item.index(), i);
        item = item.next();
    }
    assert_eq!(item, CatalogueCreateItem::Back);
    for _ in 0..9 {
        item = item.prev();
    }
    assert_eq!(item, CatalogueCreateItem::Name);
}

#[test]
fn control_c_quits_everywhere() {
    for screen in [Screen::SourceSelect, Screen::CatalogueCreate, Screen::Sync, Screen::Summary] {
        let mut app = app();
        app.screen = screen;
        assert!(matches!(app.on_key(Key::Char('c'), true), Action::Stay));
        assert!(app.should_quit);
        assert!(app.form.name.is_empty());
    }
}

#[test]
fn a_path_is_typed_and_checked() {
    let mut app = app();
    app.on_key(Key::Enter, false);
    assert!(app.manual_editing);
    app.on_key(Key::Enter, false);
    assert_eq!(app.status.as_deref(), Some("path is empty"));
    for c in " /cardx".chars() {
        app.on_key(Key::Char(c), false);
    }
    app.on_key(Key::Backspace, false);
    match app.on_key(Key::Enter, false) {
        Action::CheckSource { path } => assert_eq!(path, "/card"),
        other => panic!("{other:?}"),
    }
    app.source_checked("/card", false);
    assert_eq!(app.status.as_deref(), Some("not a directory: /card"));
    app.source_checked("/card", true);
    assert_eq!(app.screen, Screen::CatalogueSelect);
}

#[test]
fn the_source_menu_ends_with_its_three_rows() {
    let card = DetectedMount {
        path: NativePath::of_text("/media/card"),
        label: "card".to_string(),
        rank: MountRank::CameraCard,
    };
    let mut app = App::new(AppConfig::default(), CONFIG_PATH.to_string(), vec![card]);
    for _ in 0..9 {
        app.on_key(Key::Down, false);
    }
    assert_eq!(app.source_selection, 3);
    app.on_key(Key::Up, false);
    assert!(matches!(app.on_key(Key::Enter, false), Action::RefreshMounts));
    app.mounts_refreshed(Vec::new());
    assert_eq!(app.source_selection, 1);
    assert_eq!(app.status.as_deref(), Some("rescanned mounts"));
}

#[test]
fn a_changed_raw_setting_is_asked_about() {
    let mut app = at_confirmation();
    app.confirm_action = 1;
    app.on_key(Key::Right, false);
    app.confirm_action = 0;
    assert!(matches!(app.on_key(Key::Enter, false), Action::Stay));
    assert_eq!(app.screen, Screen::SaveConfigPrompt);
    assert!(matches!(app.on_key(Key::Enter, false), Action::SaveConfig));
    assert!(matches!(app.config_saved(Err(Error::io("/c", "full"))), Action::Stay));
    assert_eq!(app.status.as_deref(), Some("save failed: io error at /c: full"));
    match app.config_saved(Ok(())) {
        Action::StartScan { config } => assert_eq!(config.filters.raw_mode, RawMode::RawOnly),
        other => panic!("{other:?}"),
    }
    assert_eq!(app.raw_mode_disk, RawMode::RawOnly);
    assert_eq!(app.screen, Screen::Scan);
    assert_eq!(app.status.as_deref(), Some("saved config to /tmp/imagesync/config.toml"));
}

#[test]
fn a_scan_is_cancelled_once_and_starts_over() {
    let mut app = at_confirmation();
    app.on_key(Key::Enter, false);
    assert_eq!(app.scan.status, "starting…");
    assert!(matches!(app.on_key(Key::Char('q'), false), Action::CancelScan));
    assert!(matches!(app.on_key(Key::Char('q'), false), Action::Stay));
    assert!(matches!(app.scan_finished(ScanEnd::Failed(Error::Cancelled)), Action::StartOver));
}

#[test]
fn a_failed_scan_stays_on_its_screen() {
    let mut app = at_confirmation();
    app.on_key(Key::Enter, false);
    app.scan_finished(ScanEnd::Failed(Error::Source("gone".to_string())));
    assert_eq!(app.screen, Screen::Scan);
    assert_eq!(app.scan.error.as_deref(), Some("source error: gone"));
    assert_eq!(app.help(), "Enter/Esc back");
    let content = app.scan_screen();
    assert_eq!(shown(&content.action), "Back to source");
    assert_eq!(shown(&content.error.unwrap()), "source error: gone");
    assert!(matches!(app.on_key(Key::Esc, false), Action::StartOver));
}

#[test]
fn scan_events_are_told() {
    let mut app = at_confirmation();
    app.on_key(Key::Enter, false);
    let source = SourceId("card".to_string());
    app.on_scan_event(&EngineEvent::ScanStarted {
        source: source.clone(),
        display_name: "Card".to_string(),
    });
    assert_eq!(app.scan.status, "scanning Card…");
    app.on_scan_event(&EngineEvent::ScanProgress { source: source.clone(), files_seen: 12 });
    assert_eq!(app.scan.status, "scanning… 12 files");
    app.on_scan_event(&EngineEvent::ScanComplete { source, files: 34 });
    assert_eq!(app.scan.status, "34 files enumerated");
    app.on_scan_event(&EngineEvent::PlanReady {
        summary: PlanSummary { copies: 1, skips: 2, errors: 3 },
    });
    assert_eq!(app.scan.status, "plan ready: 1 copies, 2 skips, 3 errors");
    let content = app.scan_screen();
    assert_eq!((content.gauge.done, content.gauge.total), (1, 1));
    assert_eq!(shown(&content.details), "34 files enumerated.");
}

#[test]
fn the_preview_groups_files_by_folder_and_name() {
    let tree = build_review_tree(&small_plan());
    assert_eq!(
        page(&tree),
        [
            "  (root)/   VID: 1  (10 B)",
            "    ├─ VID  TOP.MP4",
            "",
            "  DCIM/   RAW: 1  IMG: 1  (3.0 KiB)",
            "    ├─ IMG  A.JPG",
            "    ├─ RAW  B.ARW",
            "",
        ]
    );
    let items = build_review_items(&small_plan());
    assert_eq!(shown(&items.lines[0]), " Copy      3 files · 3.0 KiB");
    assert_eq!(shown(&items.lines[1]), " Skip      1 files");
    assert_eq!(items.len(), 4 + 7);
    let nothing = SyncPlan { items: Vec::new(), units: Vec::new() };
    assert_eq!(page(&build_review_tree(&nothing)), ["(no new files to copy)"]);
}

#[test]
fn the_preview_is_paged() {
    let mut app = at_review();
    assert_eq!(app.screen, Screen::Review);
    assert_eq!(app.review_selected, Some(0));
    app.on_key(Key::PageDown, false);
    assert_eq!(app.review_selected, Some(10));
    app.on_key(Key::PageDown, false);
    assert_eq!(app.review_selected, Some(10));
    app.on_key(Key::PageUp, false);
    assert_eq!(app.review_selected, Some(0));
    assert!(needs_scrollbar(11, 12));
    assert!(!needs_scrollbar(11, 13));
}

#[test]
fn the_plan_that_was_shown_is_imported() {
    let mut app = at_review();
    app.cfg.performance.copy_workers = 99;
    app.on_key(Key::Down, false);
    match app.on_key(Key::Enter, false) {
        Action::StartSync { plan, dry_run, config } => {
            assert!(dry_run);
            assert_eq!(plan.items.len(), 4);
            assert_eq!(config.images_root, "/lib/images");
        }
        other => panic!("{other:?}"),
    }
    assert_eq!(app.screen, Screen::Sync);
    assert_eq!(app.sync.copy_total, 3);
    assert_eq!(app.sync.lanes.len(), 8);
    assert!(app.plan.is_none());
}

fn importing() -> App {
    let mut app = at_review();
    app.cfg.performance.copy_workers = 2;
    app.on_key(Key::Enter, false);
    app
}

#[test]
fn lanes_follow_the_files() {
    let mut app = importing();
    for rel in ["a", "b"] {
        let f = planned(rel, 1000, MediaKindWire::Image, PlannedAction::Copy);
        app.on_sync_event(&EngineEvent::FileStarted { file: f });
    }
    app.on_sync_event(&EngineEvent::FileProgress { file: file("b"), bytes_done: 512, bytes_total: 2048 });
    app.on_sync_event(&EngineEvent::FilePhaseChanged { file: file("b"), phase: FilePhase::Verifying });
    let content = app.sync_screen(12);
    assert_eq!(content.lanes.len(), 2);
    assert_eq!(content.lanes[0].label, "a — copying  0 B/1000 B");
    assert_eq!(content.lanes[1].title, " Worker 2 ");
    assert_eq!(content.lanes[1].label, "b — verifying  512 B/2.0 KiB");
    assert_eq!((content.lanes[1].done, content.lanes[1].total), (512, 2048));
    let done = planned("a", 1000, MediaKindWire::Image, PlannedAction::Copy);
    app.on_sync_event(&EngineEvent::FileFinished {
        file: done,
        outcome: FileOutcome::Skipped { reason: "there".to_string() },
    });
    assert_eq!(app.sync_screen(12).lanes[0].label, "(idle)");
    assert_eq!(app.sync.log, [" SKIP a (there)"]);
}

#[test]
fn the_furthest_lane_makes_room() {
    let mut lanes = Lanes::idle(2);
    lanes.start("a".to_string(), 10);
    lanes.start("b".to_string(), 10);
    lanes.update("a", 9, 10);
    lanes.update("b", 1, 10);
    lanes.start("c".to_string(), 10);
    assert_eq!(lanes.slots[0].as_ref().unwrap().rel_path, "c");
    assert_eq!(lanes.slots[1].as_ref().unwrap().rel_path, "b");
    lanes.start("b".to_string(), 20);
    assert_eq!(lanes.slots[1].as_ref().unwrap().bytes_total, 20);
    lanes.free("b");
    assert!(lanes.slots[1].is_none());
}

#[test]
fn hidden_lanes_are_counted() {
    let mut app = at_review();
    app.cfg.performance.copy_workers = 4;
    app.on_key(Key::Enter, false);
    app.on_sync_event(&EngineEvent::ExecutionProgress {
        summary: SyncSummary { total: 4, copied: 1, skipped: 1, failed: 1, cancelled: false },
    });
    let content = app.sync_screen(12);
    assert_eq!(content.lanes.len(), 2);
    assert_eq!(
        content.total.label,
        "2/3 imported · 1 copied · 1 failed · 1 skipped · +2 more lanes hidden"
    );
    assert_eq!((content.total.done, content.total.total), (2, 3));
    assert_eq!(app.sync_screen(0).lanes.len(), 1);
}

#[test]
fn warnings_reach_the_summary_beyond_the_log() {
    let mut app = importing();
    app.on_sync_event(&EngineEvent::Warning {
        kind: WarningKind::MetadataFallback,
        message: "no date".to_string(),
        file: Some(file("a")),
    });
    assert_eq!(app.status.as_deref(), Some("warn: no date"));
    for _ in 0..600 {
        let done = planned("b", 1, MediaKindWire::Image, PlannedAction::Copy);
        app.on_sync_event(&EngineEvent::FileFinished {
            file: done,
            outcome: FileOutcome::Copied { bytes: 1 },
        });
    }
    assert_eq!(app.sync.log.len(), 500);
    assert!(app.sync.log.iter().all(|l| l == " OK   b"));
    app.sync_finished(SyncEnd::Done(SyncSummary {
        total: 600,
        copied: 600,
        skipped: 0,
        failed: 0,
        cancelled: false,
    }));
    let content = app.summary_screen();
    assert_eq!(shown(&content.heading), "Import complete");
    assert_eq!(
        page(&content.details),
        [
            " Completed   600/600",
            " Copied      600",
            " Skipped     0",
            " Failed      0",
            "",
            "Warnings and errors",
            " WARN  no date (a)",
        ]
    );
}

#[test]
fn the_log_is_coloured_by_what_it_tells() {
    let mut app = app();
    app.sync.log = [" OK   a", " SKIP b (x)", " WARN  c", " FAIL d (y)", " ERROR e"]
        .iter()
        .map(|s| s.to_string())
        .collect();
    let rows = app.log_rows(7);
    let tones: Vec<Tone> = rows.lines.iter().map(|l| l.spans[0].tone).collect();
    assert_eq!(tones, [Tone::Green, Tone::DarkGray, Tone::Yellow, Tone::Red, Tone::Red]);
    assert_eq!(page(&app.log_rows(4)), [" FAIL d (y)", " ERROR e"]);
    assert_eq!(app.log_rows(1).len(), 0);
}

#[test]
fn an_import_that_broke_down_says_so() {
    let mut app = importing();
    app.sync_finished(SyncEnd::Panicked("boom".to_string()));
    assert_eq!(app.screen, Screen::Summary);
    assert_eq!(app.sync.diagnostics, [" ERROR sync task panicked: boom"]);
    let content = app.summary_screen();
    assert_eq!(shown(&content.heading), "Import did not complete: sync task panicked: boom");
    assert_eq!(content.heading.spans[0].tone, Tone::Red);

    let mut app = importing();
    app.sync_finished(SyncEnd::Failed(Error::Cancelled));
    assert_eq!(app.sync.error.as_deref(), Some("sync failed: operation cancelled"));
}

#[test]
fn a_dry_run_says_that_nothing_was_written() {
    let mut app = at_review();
    app.review_action = 1;
    app.on_key(Key::Enter, false);
    assert_eq!(shown(&app.sync_screen(20).heading), "Checking import (dry run)");
    app.sync_finished(SyncEnd::Done(SyncSummary::default()));
    let content = app.summary_screen();
    assert_eq!(shown(&content.heading), "Dry run complete");
    assert_eq!(page(&content.details)[0], "No files were written.");
}

#[test]
fn a_cancelled_import_says_so() {
    let mut app = importing();
    assert!(matches!(app.on_key(Key::Esc, false), Action::CancelSync));
    assert!(matches!(app.on_key(Key::Esc, false), Action::Stay));
    assert_eq!(shown(&app.sync_screen(20).action), "Cancelling import…");
    let mut summary = SyncSummary::default();
    summary.cancelled = true;
    app.sync_finished(SyncEnd::Done(summary));
    assert_eq!(shown(&app.summary_screen().heading), "Import cancelled");
}

fn row(content: &Content, i: usize) -> String {
    shown(&content.menu.lines[i])
}

#[test]
fn the_menus_show_what_can_be_chosen() {
    let card = DetectedMount {
        path: NativePath::of_text("/media/card"),
        label: "card".to_string(),
        rank: MountRank::CameraCard,
    };
    let mut app = App::new(with_catalogue("Photos"), CONFIG_PATH.to_string(), vec![card]);
    let content = app.source_screen();
    assert_eq!(row(&content, 0), format!("{:<30}CAMERA", "card"));
    assert_eq!(row(&content, 2), "Enter a path…");
    assert_eq!(page(&content.details), [" Type   Camera card", " Path   /media/card"]);
    app.source_selection = 1;
    assert_eq!(app.source_screen().selected, 2);

    app.choose_source(NativePath::of_text("/media/card"));
    let content = app.catalogue_screen();
    assert_eq!(shown(&content.heading), "Choose a catalogue    Source: card");
    assert_eq!(page(&content.menu), ["Photos", "+ New catalogue…", "", "Back"]);
    assert_eq!(page(&content.details)[0], "Photos");
    app.catalogue_selection = 2;
    assert_eq!(app.catalogue_screen().selected, 3);

    app.catalogue_selection = 0;
    app.on_key(Key::Enter, false);
    let content = app.confirm_screen();
    assert_eq!(row(&content, 1), "RAW files    ‹ All (RAW + JPEG) ›    ←/→ change");
    assert_eq!(
        page(&content.details),
        [
            " Source      card",
            "             /media/card",
            "",
            " Catalogue   Photos",
            " Images      /lib/images / {yyyy}",
            " Videos      /lib/videos / {yyyy}/{mm}",
        ]
    );
    app.save_action = 2;
    assert_eq!(app.save_screen().selected, 3);
    assert_eq!(page(&app.save_screen().details)[0], format!(" Config path   {CONFIG_PATH}"));
}

#[test]
fn the_form_shows_its_cursor() {
    let mut app = app();
    app.screen = Screen::CatalogueCreate;
    app.on_key(Key::Char('a'), false);
    app.on_key(Key::Char('b'), false);
    app.on_key(Key::Left, false);
    let content = app.form_screen();
    assert_eq!(row(&content, 0), format!("{:<16}a_b", "Name"));
    assert_eq!(row(&content, 3), format!("{:<16}{{yyyy}}/{{yyyy}}-{{mm}}-{{dd}}", "Images folders"));
    for _ in 0..5 {
        app.on_key(Key::Down, false);
    }
    assert_eq!(app.form_screen().selected, 6);
    assert!(matches!(app.on_key(Key::Enter, false), Action::CreateCatalogue));
}

#[test]
fn the_header_marks_the_stage() {
    let mut app = app();
    app.screen = Screen::Review;
    let header = app.header();
    assert_eq!(shown(&header), " IMAGESYNC     SOURCE  ─  CATALOGUE  ─  CONFIRM  ─  REVIEW  ─  IMPORT");
    let marked: Vec<&str> = header.spans.iter().filter(|s| s.underlined).map(|s| s.text.as_str()).collect();
    assert_eq!(marked, ["REVIEW"]);
    assert_eq!(app.status_text(), "");
}

#[test]
fn sums_that_overflow_are_noticed() {
    let mut s = SyncSummary::default();
    assert!(is_countable(&s));
    s.copied = u64::MAX;
    assert!(is_countable(&s));
    s.failed = 1;
    assert!(!is_countable(&s));
}
