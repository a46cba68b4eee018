use std::collections::{BTreeMap, BTreeSet};

use imagesync::classify::MediaKind;
use imagesync::config::{EngineConfig, FiltersConfig, PerformanceConfig, VerifyAlgorithm, VerifyConfig};
use imagesync::copy::{
    after_rename, is_cross_device, temp_path_for, CopyEvent, CopyRun, FileHash, MoveStep,
    RenameResult, COPY_BUF_SIZE,
};
use imagesync::datetime::DateTime;
use imagesync::dedupe::{DedupeCache, DirEntry};
use imagesync::engine::dry::{DirListing, DryAction, DryEvent, DryRun};
use imagesync::engine::execute::{SetupAction, SetupEvent, SetupRun};
use imagesync::engine::scan::{ScanAction, ScanEvent, ScanRun};
use imagesync::engine::staging::{StagingAction, StagingEvent, StagingRun};
use imagesync::engine::unit::{UnitAction, UnitEvent, UnitRun};
use imagesync::engine::{error_event, Counters, ExecuteOptions, ScanResult};
use imagesync::error::Error;
use imagesync::events::{
    EngineEvent, FileOutcome, OperationErrorKind, PlannedAction, SyncSummary, WarningKind,
};
use imagesync::exiftool::FileMetadata;
use imagesync::index::{DestIndex, IndexedFile, STAGING_DIR_NAME};
use imagesync::path::NativePath;
use imagesync::plan::{CopyUnit, SyncPlan};
use imagesync::profiles::ProfileRegistry;
use imagesync::roots::{LockResult, RootState};
use imagesync::source::{BackendHandle, FilesystemSource, SourceFile, SourceId, WalkEntry};

/// A file system in memory, what was told, and whether to stop.
struct World {
    files: BTreeMap<String, Vec<u8>>,
    dirs: BTreeSet<String>,
    locked: Vec<String>,
    events: Vec<EngineEvent>,
    cancel_at_start: bool,
    cancelled: bool,
    counters: Counters,
    cache: DedupeCache,
    total: u64,
    metadata: Option<FileMetadata>,
}

impl World {
    fn new() -> Self {
        let mut w = World {
            files: BTreeMap::new(),
            dirs: BTreeSet::new(),
            locked: Vec::new(),
            events: Vec::new(),
            cancel_at_start: false,
            cancelled: false,
            counters: Counters::default(),
            cache: DedupeCache::new(),
            total: 0,
            metadata: None,
        };
        for d in ["/card", "/images", "/videos"] {
            w.dirs.insert(d.to_string());
        }
        w
    }

    fn root(&self, path: &str) -> RootState {
        if self.dirs.contains(path) {
            RootState::Directory
        } else if self.files.contains_key(path) {
            RootState::NotDirectory
        } else {
            RootState::Missing
        }
    }

    fn below(&self, root: &str) -> Vec<(String, u64)> {
        let prefix = format!("{root}/");
        self.files
            .iter()
            .filter(|(p, _)| p.starts_with(&prefix))
            .map(|(p, b)| (p.clone(), b.len() as u64))
            .collect()
    }

    fn indexed(&self, root: &str) -> Vec<IndexedFile> {
        self.below(root)
            .into_iter()
            .map(|(path, size)| {
                let mut parts: Vec<String> =
                    path[root.len() + 1..].split('/').map(|s| s.to_string()).collect();
                let name = parts.pop().unwrap();
                IndexedFile { folders: parts, name, path: NativePath::of_text(&path), size }
            })
            .collect()
    }

    fn listing(&self, dir: &str) -> Option<Vec<DirEntry>> {
        let found: Vec<DirEntry> = self
            .below(dir)
            .into_iter()
            .filter(|(p, _)| !p[dir.len() + 1..].contains('/'))
            .map(|(p, size)| DirEntry {
                actual_name: p[dir.len() + 1..].to_string(),
                size,
                is_file: true,
            })
            .collect();
        if found.is_empty() {
            None
        } else {
            Some(found)
        }
    }

    fn send(&mut self, event: EngineEvent) -> bool {
        if self.cancel_at_start && matches!(event, EngineEvent::ExecutionStarted { .. }) {
            self.cancelled = true;
        }
        self.events.push(event);
        true
    }

    fn finish(&mut self, file: imagesync::events::PlannedFile, outcome: FileOutcome) {
        self.counters.record(&outcome);
        let sent = self.send(EngineEvent::FileFinished { file, outcome });
        if let Some(progress) = self.counters.progress_after(sent, self.total, self.cancelled) {
            self.send(progress);
        }
    }

    fn remove_dir(&mut self, path: &str) {
        for (p, _) in self.below(path) {
            self.files.remove(&p);
        }
    }

    fn outcomes(&self) -> Vec<(String, String)> {
        self.events
            .iter()
            .filter_map(|e| match e {
                EngineEvent::FileFinished { file, outcome } => Some((
                    file.source_rel_path.clone(),
                    match outcome {
                        FileOutcome::Copied { .. } => "copied".to_string(),
                        FileOutcome::Skipped { .. } => "skipped".to_string(),
                        FileOutcome::Failed { .. } => "failed".to_string(),
                    },
                )),
                _ => None,
            })
            .collect()
    }
}

fn cfg(images: &str, videos: &str) -> EngineConfig {
    EngineConfig {
        images_root: images.to_string(),
        videos_root: videos.to_string(),
        images_template: "{yyyy}/{yyyy}-{mm}-{dd}".to_string(),
        videos_template: "{yyyy}/{yyyy}-{mm}-{dd}".to_string(),
        filters: FiltersConfig::default(),
        performance: PerformanceConfig::default(),
        verify: VerifyConfig::default(),
        template_warnings: Vec::new(),
    }
}

fn card() -> FilesystemSource {
    FilesystemSource::new("card", "card", NativePath::of_text("/card"))
}

fn scan(w: &mut World, cfg: &EngineConfig, source: &FilesystemSource) -> Result<ScanResult, Error> {
    let mut run = ScanRun::new(
        cfg.clone(),
        ProfileRegistry::with_builtins().unwrap(),
        source.id().clone(),
        source.display_name(),
        &source.root_path().text,
    );
    let mut event = ScanEvent::Start;
    loop {
        event = match run.step(event, w.cancelled) {
            ScanAction::CheckRoots { images, videos } => {
                ScanEvent::Roots(w.root(&images), w.root(&videos))
            }
            ScanAction::Emit(e) => ScanEvent::Sent(w.send(e)),
            ScanAction::Probe { paths } => ScanEvent::Existing(
                paths
                    .into_iter()
                    .filter(|p| w.files.contains_key(p) || w.dirs.contains(p))
                    .collect(),
            ),
            ScanAction::ListFiles => {
                let entries = w
                    .below(&source.root_path().text)
                    .into_iter()
                    .map(|(path, size)| WalkEntry::File {
                        path: NativePath::of_text(&path),
                        plain_extension: true,
                        size,
                        modified: Some((1_777_815_907, 0)),
                    })
                    .collect();
                ScanEvent::Files(Ok(source.list_files(entries)))
            }
            ScanAction::IndexRoots { images, videos } => {
                let mut found = w.indexed(&images);
                found.extend(w.indexed(&videos));
                ScanEvent::Indexed(found)
            }
            ScanAction::Fail(e) => return Err(e),
            ScanAction::Complete(r) => return Ok(r),
        };
    }
}

fn process_unit(w: &mut World, cfg: &EngineConfig, source: &FilesystemSource, unit: CopyUnit, seq: u64, has_exif: bool) {
    let mut run = UnitRun::new(cfg.clone(), source.id().clone(), unit, seq, has_exif);
    let mut event = UnitEvent::Start;
    loop {
        event = match run.step(event, w.cancelled) {
            UnitAction::Emit(e) => UnitEvent::Sent(w.send(e)),
            UnitAction::Finish { file, outcome } => {
                w.finish(file, outcome);
                UnitEvent::Finished
            }
            UnitAction::ResolveSource { file } => {
                UnitEvent::SourcePath(source.full_path(&file).map_err(|e| e.to_string()))
            }
            UnitAction::CopyToStaging { from, to, .. } => match w.files.get(&from.text).cloned() {
                Some(bytes) => {
                    w.files.insert(to, bytes);
                    UnitEvent::Copied(Ok(()))
                }
                None => UnitEvent::Copied(Err(format!("no such file: {}", from.text))),
            },
            UnitAction::ReadMetadata { .. } => match &w.metadata {
                Some(m) => UnitEvent::Metadata(Ok(vec![m.clone()])),
                None => UnitEvent::Metadata(Err("unreadable".to_string())),
            },
            UnitAction::Reserve { dest, name, size } => {
                if let Some(dir) = w.cache.wants(&dest) {
                    let found = w.listing(&dir);
                    w.cache.load(&dir, found);
                }
                let (action, reason) = w.cache.reserve(&dest, &name, size);
                UnitEvent::Reserved(action, reason)
            }
            UnitAction::Move { from, to } => {
                let bytes = w.files.remove(&from).unwrap();
                assert!(w.files.insert(to, bytes).is_none(), "a file was overwritten");
                UnitEvent::Moved(Ok(()))
            }
            UnitAction::Remove { path } => {
                w.files.remove(&path);
                UnitEvent::Removed
            }
            UnitAction::RemoveDir { path } => {
                w.remove_dir(&path);
                UnitEvent::Removed
            }
            UnitAction::Done => return,
        };
    }
}

fn run_staging(w: &mut World, cfg: &EngineConfig, plan: SyncPlan, source: &FilesystemSource) -> Result<SyncSummary, Error> {
    let mut run = StagingRun::new(cfg.clone(), plan);
    let mut event = StagingEvent::Start;
    loop {
        event = match run.step(event, w.cancelled) {
            StagingAction::RemoveDir { path } => {
                w.remove_dir(&path);
                StagingEvent::Removed
            }
            StagingAction::Emit(e) => StagingEvent::Sent(w.send(e)),
            StagingAction::Finish { file, outcome } => {
                w.finish(file, outcome);
                StagingEvent::Finished
            }
            StagingAction::SpawnExif => StagingEvent::Exif(if w.metadata.is_some() {
                Ok(())
            } else {
                Err("not installed".to_string())
            }),
            StagingAction::AcquireSlot => StagingEvent::Slot(true),
            StagingAction::StartUnit { unit, seq, has_exif } => {
                process_unit(w, cfg, source, unit, seq, has_exif);
                StagingEvent::UnitStarted
            }
            StagingAction::JoinWorkers => StagingEvent::Joined(None),
            StagingAction::ShutdownExif => StagingEvent::ShutDown,
            StagingAction::Summarize => StagingEvent::Totals(w.counters),
            StagingAction::Fail(e) => return Err(e),
            StagingAction::Complete(s) => return Ok(s),
        };
    }
}

fn run_dry(w: &mut World, cfg: &EngineConfig, plan: &SyncPlan, source: &FilesystemSource) -> Result<SyncSummary, Error> {
    let mut run = DryRun::new(cfg.clone(), source.id().clone(), plan);
    let mut event = DryEvent::Start;
    loop {
        event = match run.step(event, w.cancelled) {
            DryAction::Emit(e) => DryEvent::Sent(w.send(e)),
            DryAction::Finish { file, outcome } => {
                w.finish(file, outcome);
                DryEvent::Finished
            }
            DryAction::ResolveSource { file } => DryEvent::SourcePath(source.full_path(&file)),
            DryAction::SpawnExif => DryEvent::Exif(Ok(())),
            DryAction::ReadBatch { paths } => DryEvent::Batch(Ok(paths
                .iter()
                .map(|_| w.metadata.clone().unwrap_or_default())
                .collect())),
            DryAction::ShutdownExif => DryEvent::ShutDown,
            DryAction::ReadDirs { dirs } => DryEvent::Listings(
                dirs.into_iter()
                    .map(|dir| {
                        let found = w.listing(&dir);
                        DirListing { dir, found }
                    })
                    .collect(),
            ),
            DryAction::Summarize => DryEvent::Totals(w.counters),
            DryAction::Fail(e) => return Err(e),
            DryAction::Complete(s) => return Ok(s),
        };
    }
}

fn execute(w: &mut World, cfg: &EngineConfig, plan: SyncPlan, source: &FilesystemSource, opts: ExecuteOptions) -> Result<SyncSummary, Error> {
    w.counters = Counters::default();
    w.cache = DedupeCache::new();
    w.total = plan.items.len() as u64;
    let mut setup = SetupRun::new(cfg.clone(), &plan, &opts);
    let mut event = SetupEvent::Start;
    let result = loop {
        event = match setup.step(event, w.cancelled) {
            SetupAction::CheckRoots { images, videos } => {
                SetupEvent::Roots(w.root(&images), w.root(&videos))
            }
            SetupAction::Lock { root } => {
                w.locked.push(root);
                SetupEvent::Lock(LockResult::Locked)
            }
            SetupAction::Emit(e) => SetupEvent::Sent(w.send(e)),
            SetupAction::Fail(e) => break Err(e),
            SetupAction::RunDry => break run_dry(w, cfg, &plan, source),
            SetupAction::RunStaging => break run_staging(w, cfg, plan, source),
        };
    };
    if let Err(e) = &result {
        w.send(error_event(e));
    }
    result
}

fn card_with_three_files() -> World {
    let mut w = World::new();
    w.dirs.insert("/card/DCIM".to_string());
    w.files.insert("/card/DCIM/IMG001.JPG".to_string(), vec![1u8; 100]);
    w.files.insert("/card/DCIM/IMG001.XMP".to_string(), vec![2u8; 20]);
    w.files.insert("/card/DCIM/VID001.MP4".to_string(), vec![3u8; 500]);
    w
}

#[test]
fn staging_sync_places_dedupes_and_cleans_up() {
    let mut w = card_with_three_files();
    let cfg = cfg("/images", "/videos");
    let source = card();

    let found = scan(&mut w, &cfg, &source).unwrap();
    let summary = execute(&mut w, &cfg, found.plan, &source, ExecuteOptions::default()).unwrap();
    assert_eq!(summary.copied, 3, "expected IMG, XMP, MP4 copied");
    assert_eq!(summary.failed, 0);
    assert_eq!(w.locked, ["/images", "/videos"]);

    let img_idx = DestIndex::build(&w.indexed("/images"));
    let vid_idx = DestIndex::build(&w.indexed("/videos"));
    let jpg_dest = img_idx.lookup("IMG001.JPG", 100).expect("jpg placed");
    let xmp_dest = img_idx.lookup("IMG001.XMP", 20).expect("xmp placed");
    assert!(vid_idx.lookup("VID001.MP4", 500).is_some(), "mp4 placed");
    assert_eq!(jpg_dest.text, "/images/2026/2026-05-03/IMG001.JPG");
    assert_eq!(xmp_dest.text, "/images/2026/2026-05-03/IMG001.XMP");

    for root in ["/images", "/videos"] {
        let staging = format!("{root}/{STAGING_DIR_NAME}");
        assert_eq!(w.below(&staging).len(), 0, "staging dir should be empty: {staging}");
    }

    let again = scan(&mut w, &cfg, &source).unwrap();
    let summary = execute(&mut w, &cfg, again.plan, &source, ExecuteOptions::default()).unwrap();
    assert_eq!(summary.copied, 0, "re-run should copy nothing (deduped)");
    assert_eq!(summary.failed, 0);
}

#[test]
fn every_planned_file_gets_one_outcome() {
    for dry_run in [false, true] {
        let mut w = card_with_three_files();
        w.files.insert("/card/DCIM/OLD.JPG".to_string(), vec![4u8; 7]);
        w.files.insert("/images/kept/old.jpg".to_string(), vec![4u8; 7]);
        let cfg = cfg("/images", "/videos");
        let source = card();
        let found = scan(&mut w, &cfg, &source).unwrap();
        let mut planned: Vec<String> =
            found.plan.items.iter().map(|p| p.source_rel_path.clone()).collect();
        let opts = ExecuteOptions { dry_run };
        let summary = execute(&mut w, &cfg, found.plan, &source, opts).unwrap();
        let mut reported: Vec<String> = w.outcomes().into_iter().map(|(f, _)| f).collect();
        planned.sort();
        reported.sort();
        assert_eq!(reported, planned);
        assert_eq!((summary.copied, summary.skipped, summary.failed), (3, 1, 0));
        assert_eq!(summary.total, 4);
        assert!(matches!(
            w.events.last(),
            Some(EngineEvent::ExecutionFinished { summary: last }) if *last == summary
        ));
    }
}

#[test]
fn a_second_import_skips_every_file() {
    let mut w = card_with_three_files();
    let cfg = cfg("/images", "/videos");
    let source = card();
    let found = scan(&mut w, &cfg, &source).unwrap();
    execute(&mut w, &cfg, found.plan, &source, ExecuteOptions::default()).unwrap();
    let before = w.files.clone();
    let again = scan(&mut w, &cfg, &source).unwrap();
    assert_eq!(again.plan.units.len(), 1);
    assert_eq!(again.plan.units[0].parent.rel_path, "DCIM/IMG001.XMP");
    let summary = execute(&mut w, &cfg, again.plan, &source, ExecuteOptions::default()).unwrap();
    assert_eq!((summary.copied, summary.skipped, summary.failed), (0, 3, 0));
    assert_eq!(w.files, before);
}

#[test]
fn the_cameras_own_date_decides_the_folder() {
    let mut w = card_with_three_files();
    let taken = DateTime { year: 2019, month: 7, day: 8, hour: 1, minute: 2, second: 3, nano: 0 };
    w.metadata = Some(FileMetadata { date_time_original: Some(taken), ..FileMetadata::default() });
    let cfg = cfg("/images", "/videos");
    let source = card();
    let found = scan(&mut w, &cfg, &source).unwrap();
    execute(&mut w, &cfg, found.plan, &source, ExecuteOptions::default()).unwrap();
    assert!(w.files.contains_key("/images/2019/2019-07-08/IMG001.JPG"));
    assert!(w.files.contains_key("/images/2019/2019-07-08/IMG001.XMP"));
    assert!(w.files.contains_key("/videos/2019/2019-07-08/VID001.MP4"));
    assert!(!w.events.iter().any(|e| matches!(e, EngineEvent::Warning { .. })));
}

#[test]
fn a_missing_exiftool_is_a_warning() {
    let mut w = card_with_three_files();
    let cfg = cfg("/images", "/videos");
    let source = card();
    let found = scan(&mut w, &cfg, &source).unwrap();
    execute(&mut w, &cfg, found.plan, &source, ExecuteOptions::default()).unwrap();
    assert!(w.events.iter().any(|e| matches!(
        e,
        EngineEvent::Warning { kind: WarningKind::ExifToolUnavailable, .. }
    )));
}

#[test]
fn a_dry_run_writes_and_locks_nothing() {
    let mut w = card_with_three_files();
    let cfg = cfg("/images", "/videos");
    let source = card();
    let found = scan(&mut w, &cfg, &source).unwrap();
    let before = w.files.clone();
    let summary = execute(&mut w, &cfg, found.plan, &source, ExecuteOptions { dry_run: true }).unwrap();
    assert_eq!(summary.total, 3);
    assert_eq!(summary.copied + summary.skipped + summary.failed, 3);
    assert_eq!(summary.failed, 0);
    assert_eq!(w.files, before);
    assert!(w.locked.is_empty());
    let places: Vec<String> = w
        .events
        .iter()
        .filter_map(|e| match e {
            EngineEvent::FileFinished { file, .. } => file.dest_path.clone(),
            _ => None,
        })
        .collect();
    assert!(places.contains(&"/videos/2026/2026-05-03/VID001.MP4".to_string()));
}

#[test]
fn parent_copy_failure_reports_each_sidecar() {
    let mut w = World::new();
    w.total = 2;
    let cfg = cfg("/images", "/videos");
    let invalid = |rel_path: &str, size| SourceFile {
        rel_path: rel_path.to_string(),
        size,
        mtime: None,
        extension: "jpg".to_string(),
        backend_handle: BackendHandle::PtpObject(1),
    };
    let unit = CopyUnit {
        parent: invalid("DCIM/IMG001.JPG", 100),
        parent_kind: MediaKind::Image { raw: false },
        sidecars: vec![invalid("DCIM/IMG001.XMP", 10)],
    };

    process_unit(&mut w, &cfg, &card(), unit, 0, false);

    let failed: Vec<String> = w
        .outcomes()
        .into_iter()
        .filter(|(_, outcome)| outcome == "failed")
        .map(|(rel, _)| rel)
        .collect();
    assert_eq!(failed, vec!["DCIM/IMG001.JPG", "DCIM/IMG001.XMP"]);
    assert_eq!(w.counters.failed, 2);
}

#[test]
fn execution_setup_error_is_emitted_and_completed() {
    let mut w = World::new();
    let cfg = cfg("/missing-images", "/missing-videos");
    let error = execute(&mut w, &cfg, SyncPlan::default(), &card(), ExecuteOptions::default()).unwrap_err();
    assert!(matches!(error, Error::DestRootMissing { .. }));
    let saw_destination_error = w.events.iter().any(|event| {
        matches!(
            event,
            EngineEvent::Error { kind: OperationErrorKind::Destination, .. }
        )
    });
    assert!(saw_destination_error, "setup error was not emitted");
}

#[test]
fn explicit_cancellation_cleans_up_staging_and_completes() {
    let mut w = World::new();
    for index in 0..40 {
        w.files.insert(format!("/card/DCIM/IMG{index:04}.JPG"), vec![7u8; 4096]);
    }
    let cfg = cfg("/images", "/videos");
    let source = card();
    let found = scan(&mut w, &cfg, &source).unwrap();

    let expected_total = found.plan.items.len() as u64;
    assert_eq!(expected_total, 40);
    w.cancel_at_start = true;
    let summary = execute(&mut w, &cfg, found.plan, &source, ExecuteOptions::default()).unwrap();
    assert!(w.cancelled, "execution did not announce its start");
    assert!(summary.cancelled);
    assert_eq!(summary.total, expected_total);
    for root in ["/images", "/videos"] {
        let staging = format!("{root}/{STAGING_DIR_NAME}");
        assert!(w.below(&staging).is_empty(), "staging area was not cleaned: {staging}");
    }
}

#[test]
fn a_locked_root_refuses_a_second_import() {
    let plan = SyncPlan { items: Vec::new(), units: Vec::new() };
    let opts = ExecuteOptions::default();
    let directories = || SetupEvent::Roots(RootState::Directory, RootState::Directory);
    let mut first = SetupRun::new(cfg("/images", "/videos"), &plan, &opts);
    first.step(SetupEvent::Start, false);
    assert!(matches!(first.step(directories(), false), SetupAction::Lock { root } if root == "/images"));
    assert!(matches!(
        first.step(SetupEvent::Lock(LockResult::Locked), false),
        SetupAction::Lock { root } if root == "/videos"
    ));
    assert!(matches!(first.step(SetupEvent::Lock(LockResult::Locked), false), SetupAction::Emit(_)));
    assert!(matches!(first.step(SetupEvent::Sent(true), false), SetupAction::RunStaging));

    let mut second = SetupRun::new(cfg("/other", "/videos"), &plan, &opts);
    second.step(SetupEvent::Start, false);
    second.step(directories(), false);
    second.step(SetupEvent::Lock(LockResult::Locked), false);
    assert!(matches!(
        second.step(SetupEvent::Lock(LockResult::WouldBlock), false),
        SetupAction::Fail(Error::DestinationLocked { path }) if path == "/videos"
    ));
    assert!(!matches!(second.step(SetupEvent::Sent(true), false), SetupAction::RunStaging));
}

#[test]
fn a_cancelled_scan_comes_to_nothing() {
    let mut w = card_with_three_files();
    w.cancelled = true;
    let err = scan(&mut w, &cfg("/images", "/videos"), &card()).unwrap_err();
    assert!(matches!(err, Error::Cancelled));
    assert!(w.events.is_empty());
}

#[test]
fn a_scan_checks_the_roots_first() {
    let mut w = card_with_three_files();
    let err = scan(&mut w, &cfg("/nowhere", "/videos"), &card()).unwrap_err();
    assert!(matches!(err, Error::DestRootMissing { .. }));
}

#[test]
fn two_files_of_one_name_do_not_meet() {
    let mut w = World::new();
    w.files.insert("/card/DCIM/100/A.JPG".to_string(), vec![1u8; 10]);
    w.files.insert("/card/DCIM/101/A.JPG".to_string(), vec![2u8; 11]);
    w.files.insert("/card/DCIM/102/A.JPG".to_string(), vec![3u8; 10]);
    let cfg = cfg("/images", "/videos");
    let source = card();
    let found = scan(&mut w, &cfg, &source).unwrap();
    assert_eq!(found.plan.copies(), 3);
    let summary = execute(&mut w, &cfg, found.plan, &source, ExecuteOptions::default()).unwrap();
    assert_eq!((summary.copied, summary.skipped, summary.failed), (1, 1, 1));
    assert_eq!(w.files["/images/2026/2026-05-03/A.JPG"], vec![1u8; 10]);
}

#[test]
fn exdev_is_recognised_as_cross_device() {
    assert!(is_cross_device(Some(18), true));
    assert!(!is_cross_device(Some(2), true));
    assert!(!is_cross_device(None, true));
    assert!(is_cross_device(Some(17), false));
    assert!(!is_cross_device(Some(18), false));
}

#[test]
fn a_move_across_file_systems_becomes_a_copy() {
    assert!(matches!(after_rename("/d", &RenameResult::Moved, true), MoveStep::Done));
    let crossed = RenameResult::Failed { raw_os_error: Some(18), message: "cross-device".to_string() };
    assert!(matches!(after_rename("/d", &crossed, true), MoveStep::CopyAndRemove));
    let full = RenameResult::Failed { raw_os_error: Some(28), message: "full".to_string() };
    match after_rename("/d", &full, true) {
        MoveStep::Fail(e) => assert_eq!(e.to_string(), "io error at /d: full"),
        other => panic!("{other:?}"),
    }
}

/// Copies bytes piece by piece: what was written, and what was told.
fn copied(payload: &[u8], verify: &VerifyConfig) -> (CopyRun, Vec<u8>, Vec<(u64, u64)>) {
    let mut run = CopyRun::new(payload.len() as u64, verify);
    let mut out = Vec::new();
    let mut calls = Vec::new();
    for piece in payload.chunks(COPY_BUF_SIZE) {
        out.extend_from_slice(piece);
        if let Some(CopyEvent::Progress { bytes_done, bytes_total }) = run.chunk(piece) {
            calls.push((bytes_done, bytes_total));
        }
    }
    if let CopyEvent::Progress { bytes_done, bytes_total } = run.finished() {
        calls.push((bytes_done, bytes_total));
    }
    (run, out, calls)
}

#[test]
fn copies_every_byte() {
    let (run, out, calls) = copied(b"hello world", &VerifyConfig::default());
    assert_eq!(run.bytes_done(), 11);
    assert_eq!(out, b"hello world");
    assert_eq!(calls, [(11, 11)]);
    assert!(run.verifying().is_none());
    assert!(run.verify(&FileHash::new()).is_ok());
}

#[test]
fn verify_round_trips() {
    let payload: Vec<u8> = (0u8..255).cycle().take(2_000_000).collect();
    let v = VerifyConfig { enabled: true, algorithm: VerifyAlgorithm::Xxh3 };
    let (run, out, _) = copied(&payload, &v);
    assert_eq!(run.bytes_done(), payload.len() as u64);
    assert!(matches!(run.verifying(), Some(CopyEvent::Verifying)));
    let mut written = FileHash::new();
    for piece in out.chunks(777) {
        written.update(piece);
    }
    assert!(run.verify(&written).is_ok());
    assert_eq!(written.digest(), xxhash_rust::xxh3::xxh3_64(&payload));
    written.update(b"x");
    let err = run.verify(&written).unwrap_err().to_string();
    assert!(err.contains("verify failed"), "{err}");
}

#[test]
fn progress_callback_invoked() {
    let payload = vec![0u8; 10 * 1024 * 1024];
    let (_, _, calls) = copied(&payload, &VerifyConfig::default());
    assert!(!calls.is_empty(), "progress should have been reported");
    assert!(calls.len() > 2);
    assert_eq!(calls.last().unwrap().0, payload.len() as u64);
}

#[test]
fn copies_are_made_beside_their_destination() {
    let temp = temp_path_for("/lib/a.jpg", 12, 345);
    assert!(temp.starts_with("/lib/a.jpg.imagesync-tmp-"));
    assert_ne!(temp, temp_path_for("/lib/a.jpg", 12, 346));
}

#[test]
fn outcomes_are_counted_under_their_heading() {
    let mut c = Counters::default();
    c.record(&FileOutcome::Copied { bytes: 1 });
    c.record(&FileOutcome::Skipped { reason: "x".to_string() });
    c.record(&FileOutcome::Skipped { reason: "y".to_string() });
    c.record(&FileOutcome::Failed { error: "z".to_string() });
    let s = c.summary(9, false);
    assert_eq!((s.total, s.copied, s.skipped, s.failed), (9, 1, 2, 1));
    assert_eq!(s.completed(), 4);
    assert!(c.progress_after(false, 9, false).is_none());
}

#[test]
fn files_without_a_date_are_left_out() {
    let mut w = World::new();
    w.total = 1;
    w.files.insert("/card/A.JPG".to_string(), vec![1u8; 10]);
    let unit = CopyUnit {
        parent: SourceFile {
            rel_path: "A.JPG".to_string(),
            size: 10,
            mtime: None,
            extension: "jpg".to_string(),
            backend_handle: BackendHandle::Path(NativePath::of_text("/card/A.JPG")),
        },
        parent_kind: MediaKind::Image { raw: false },
        sidecars: vec![],
    };
    process_unit(&mut w, &cfg("/images", "/videos"), &card(), unit, 3, false);
    assert_eq!(w.outcomes(), [("A.JPG".to_string(), "skipped".to_string())]);
    assert!(w.below("/images").is_empty());
    let row = w.events.iter().find_map(|e| match e {
        EngineEvent::FileFinished { file, .. } => Some(file.action),
        _ => None,
    });
    assert_eq!(row, Some(PlannedAction::SkipNoDate));
}

#[test]
fn a_source_reads_below_its_root() {
    let source = FilesystemSource::new("card", "Card", NativePath::of_text("/card"));
    let files = source.list_files(vec![
        WalkEntry::NotFile,
        WalkEntry::File {
            path: NativePath::of_text("/card/DCIM/A.Jpg"),
            plain_extension: true,
            size: 3,
            modified: Some((0, 0)),
        },
        WalkEntry::Unreadable,
    ]);
    assert_eq!(files.len(), 1);
    assert_eq!(files[0].rel_path, "DCIM/A.Jpg");
    assert_eq!(files[0].extension, "jpg");
    assert_eq!(files[0].mtime.unwrap().year, 1970);
    assert_eq!(source.full_path(&files[0]).unwrap(), NativePath::of_text("/card/DCIM/A.Jpg"));
    assert_eq!(SourceId("x".to_string()).to_string(), "x");
}
