use imagesync::config::{AppConfig, CatalogueConfig, EngineConfig, RawMode};
use imagesync::error::Error;
use imagesync::events::{
    DetectedProfile, EngineEvent, FileId, FileOutcome, FilePhase, MediaKindWire,
    OperationErrorKind, PlanSummary, PlannedAction, PlannedFile, SyncSummary, WarningKind,
};
use imagesync::mount::{DetectedMount, MountRank};
use imagesync::path::NativePath;
use imagesync::plan::SyncPlan;
use imagesync::profiles::ProfileRegistry;
use imagesync::report::{
    apply_overrides, catalogue_lines, event_line, exiftool_hint, plan_lines, profile_lines,
    source_lines, Overrides,
};
use imagesync::source::SourceId;

fn catalogue(images: &str, videos: &str, images_template: &str, videos_template: &str) -> CatalogueConfig {
    CatalogueConfig {
        images_root: images.to_string(),
        videos_root: videos.to_string(),
        images_template: images_template.to_string(),
        videos_template: videos_template.to_string(),
    }
}

fn two_catalogues() -> AppConfig {
    let mut cfg = AppConfig::default();
    cfg.catalogues.insert(
        "Zebra".to_string(),
        catalogue("/r/zebra-images", "/r/zebra-videos", "{yyyy}/z-images", "{yyyy}/z-videos"),
    );
    cfg.catalogues.insert(
        "Alpha".to_string(),
        catalogue("/r/alpha-images", "/r/alpha-videos", "{yyyy}/a-images", "{yyyy}/a-videos"),
    );
    cfg
}

#[test]
fn catalogues_lists_all_routing_fields_in_stable_order_without_exiftool() {
    let stdout: String = catalogue_lines(&two_catalogues()).iter().map(|l| format!("{l}\n")).collect();
    assert_eq!(
        stdout,
        format!(
            "Alpha\n  images root: {}\n  images folders: {{yyyy}}/a-images\n  videos root: {}\n  videos folders: {{yyyy}}/a-videos\n\nZebra\n  images root: {}\n  images folders: {{yyyy}}/z-images\n  videos root: {}\n  videos folders: {{yyyy}}/z-videos\n",
            "/r/alpha-images",
            "/r/alpha-videos",
            "/r/zebra-images",
            "/r/zebra-videos",
        )
    );
}

#[test]
fn catalogues_reports_empty_config() {
    let stdout: String = catalogue_lines(&AppConfig::default()).iter().map(|l| format!("{l}\n")).collect();
    assert_eq!(stdout, "No catalogues configured.\n");
}

#[test]
fn unknown_catalogue_fails_before_exiftool_and_lists_names() {
    let stderr = EngineConfig::try_from_catalogue(&two_catalogues(), "Missing").unwrap_err().to_string();
    assert!(
        stderr.contains("catalogue \"Missing\" not found; available: Alpha, Zebra"),
        "{stderr}"
    );
    assert!(!stderr.contains("exiftool not found"), "{stderr}");
}

#[test]
fn options_override_the_configuration() {
    let none = Overrides {
        raw_mode: None,
        no_videos: false,
        no_sidecars: false,
        copy_workers: None,
        verify: false,
    };
    let cfg = apply_overrides(AppConfig::default(), &none);
    assert_eq!(cfg.filters, AppConfig::default().filters);
    let all = Overrides {
        raw_mode: Some(RawMode::NonRawOnly),
        no_videos: true,
        no_sidecars: true,
        copy_workers: Some(7),
        verify: true,
    };
    let cfg = apply_overrides(cfg, &all);
    assert_eq!(cfg.filters.raw_mode, RawMode::NonRawOnly);
    assert!(!cfg.filters.include_videos);
    assert!(!cfg.filters.include_sidecars);
    assert_eq!(cfg.performance.copy_workers, 7);
    assert!(cfg.verify.enabled);
    let kept = apply_overrides(cfg, &none);
    assert!(!kept.filters.include_videos);
    assert!(kept.verify.enabled);
}

fn planned(rel: &str, action: PlannedAction) -> PlannedFile {
    PlannedFile {
        source: SourceId("card".to_string()),
        source_rel_path: rel.to_string(),
        source_size: 1,
        kind: MediaKindWire::Image,
        action,
        dest_path: Some("/lib/a".to_string()),
        datetime: None,
        date_source: None,
        reason: None,
    }
}

#[test]
fn a_plan_is_printed_with_its_counts() {
    let plan = SyncPlan {
        items: vec![
            planned("b", PlannedAction::SkipNoDate),
            planned("a", PlannedAction::Copy),
            planned("c", PlannedAction::Error),
        ],
        units: Vec::new(),
    };
    assert_eq!(
        plan_lines(&plan, false),
        [
            "",
            "=== Plan ===",
            "  copies: 1   skips: 1   errors: 1",
            "",
            "  copy             1",
            "  error            1",
            "  skip(no-date)    1",
            "",
            "  SKIP-NODATE  b",
            "  COPY         a",
            "  ERROR        c",
            "",
            "=== Executing ===",
        ]
    );
}

#[test]
fn a_long_plan_is_cut() {
    let items: Vec<PlannedFile> = (0..53).map(|_| planned("x", PlannedAction::Copy)).collect();
    let lines = plan_lines(&SyncPlan { items, units: Vec::new() }, true);
    assert_eq!(lines.iter().filter(|l| *l == "  COPY         x").count(), 50);
    assert_eq!(lines[lines.len() - 3], "  ... and 3 more");
    assert_eq!(lines[lines.len() - 1], "=== Dry run (no files written) ===");
}

fn card() -> SourceId {
    SourceId("card".to_string())
}

fn file() -> FileId {
    FileId { source: card(), rel_path: "a".to_string() }
}

fn line(event: EngineEvent) -> String {
    event_line(&event).unwrap()
}

#[test]
fn events_are_printed() {
    let summary = SyncSummary { total: 9, copied: 1, skipped: 2, failed: 3, cancelled: true };
    assert_eq!(
        line(EngineEvent::ScanStarted { source: card(), display_name: "Card".to_string() }),
        "scanning: Card"
    );
    assert_eq!(line(EngineEvent::ScanComplete { source: card(), files: 3 }), "  3 files enumerated");
    assert_eq!(
        line(EngineEvent::ProfileDetected {
            profile: DetectedProfile { id: "x".to_string(), display_name: "X".to_string() }
        }),
        "  profile: X (x)"
    );
    assert_eq!(
        line(EngineEvent::PlanReady { summary: PlanSummary { copies: 1, skips: 2, errors: 3 } }),
        "  planned: 1 copies, 2 skips, 3 errors"
    );
    assert_eq!(
        line(EngineEvent::ExecutionStarted { total_files: 2, total_bytes: 30, dry_run: true }),
        "  dry-running 2 files (30 bytes)"
    );
    assert_eq!(line(EngineEvent::FileStarted { file: planned("a", PlannedAction::Copy) }), "  starting a");
    assert_eq!(
        line(EngineEvent::FilePhaseChanged { file: file(), phase: FilePhase::ReadingMetadata }),
        "  a: ReadingMetadata"
    );
    assert_eq!(
        line(EngineEvent::FileProgress { file: file(), bytes_done: 1, bytes_total: 2 }),
        "  copying a: 1/2"
    );
    assert_eq!(
        line(EngineEvent::FileFinished {
            file: planned("a", PlannedAction::Copy),
            outcome: FileOutcome::Copied { bytes: 5 }
        }),
        "  copied a (5 bytes) -> /lib/a"
    );
    assert_eq!(
        line(EngineEvent::FileFinished {
            file: planned("a", PlannedAction::Error),
            outcome: FileOutcome::Failed { error: "no".to_string() }
        }),
        "  FAIL a (no)"
    );
    assert_eq!(
        line(EngineEvent::ExecutionProgress { summary }),
        "  progress: 6/9 (copied=1 skipped=2 failed=3)"
    );
    assert_eq!(
        line(EngineEvent::ExecutionFinished { summary }),
        "\nsummary: copied=1 skipped=2 failed=3 cancelled"
    );
    assert_eq!(
        line(EngineEvent::Warning {
            kind: WarningKind::Template,
            message: "odd".to_string(),
            file: Some(file())
        }),
        "warn [Template] (a): odd"
    );
    assert_eq!(
        line(EngineEvent::Error {
            kind: OperationErrorKind::Io,
            message: "bad".to_string(),
            file: None
        }),
        "error [Io]: bad"
    );
}

#[test]
fn names_of_kinds_are_those_of_the_variants() {
    for phase in [
        FilePhase::Copying,
        FilePhase::Verifying,
        FilePhase::ReadingMetadata,
        FilePhase::ResolvingDestination,
        FilePhase::Finalizing,
    ] {
        assert_eq!(
            line(EngineEvent::FilePhaseChanged { file: file(), phase }),
            format!("  a: {phase:?}")
        );
    }
    for kind in [
        OperationErrorKind::Cancelled,
        OperationErrorKind::Configuration,
        OperationErrorKind::Destination,
        OperationErrorKind::Source,
        OperationErrorKind::ExifTool,
        OperationErrorKind::Io,
        OperationErrorKind::Internal,
    ] {
        assert_eq!(
            line(EngineEvent::Error { kind, message: "m".to_string(), file: None }),
            format!("error [{kind:?}]: m")
        );
    }
    for kind in [
        WarningKind::ExifToolUnavailable,
        WarningKind::MetadataFallback,
        WarningKind::Template,
    ] {
        assert_eq!(
            line(EngineEvent::Warning { kind, message: "m".to_string(), file: None }),
            format!("warn [{kind:?}]: m")
        );
    }
}

#[test]
fn progress_is_printed_now_and_then() {
    assert!(event_line(&EngineEvent::ScanProgress { source: card(), files_seen: 199 }).is_none());
    assert_eq!(
        line(EngineEvent::ScanProgress { source: card(), files_seen: 400 }),
        "  scanned: 400 files"
    );
    assert!(event_line(&EngineEvent::MetadataProgress { done: 5, total: 7 }).is_none());
    assert_eq!(line(EngineEvent::MetadataProgress { done: 7, total: 7 }), "  metadata: 7/7");
    assert_eq!(line(EngineEvent::MetadataProgress { done: 200, total: 700 }), "  metadata: 200/700");
}

#[test]
fn profiles_and_sources_are_listed() {
    let lines = profile_lines(&ProfileRegistry::with_builtins().unwrap());
    assert_eq!(lines[0], "Built-in profiles:");
    assert!(lines.iter().any(|l| l.starts_with("  sony-a7m4            ")));
    assert_eq!(source_lines(&vec![]), ["No mounted sources detected."]);
    let card = DetectedMount {
        path: NativePath::of_text("/media/card"),
        label: "card".to_string(),
        rank: MountRank::CameraCard,
    };
    assert_eq!(
        source_lines(&vec![card]),
        ["Detected sources:".to_string(), format!("  [CAMERA] {:<24} /media/card", "card")]
    );
}

#[test]
fn a_missing_exiftool_comes_with_advice() {
    let hint = exiftool_hint(&Error::ExiftoolMissing);
    assert!(hint.starts_with("exiftool not found on PATH"));
    assert!(hint.ends_with("  Windows: winget install OliverBetz.ExifTool"));
}
