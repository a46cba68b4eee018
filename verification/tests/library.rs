use imagesync::classify::{should_include, MediaKind};
use imagesync::config::{EngineConfig, FiltersConfig, PerformanceConfig, RawMode, VerifyConfig};
use imagesync::datetime::DateTime;
use imagesync::dedupe::{DedupeCache, DirEntry};
use imagesync::events::PlannedAction;
use imagesync::index::{DestIndex, IndexedFile, STAGING_DIR_NAME};
use imagesync::path::NativePath;
use imagesync::plan::{cheap_plan, dest_path_for};
use imagesync::profiles::ProfileRegistry;
use imagesync::source::{BackendHandle, SourceFile, SourceId};

fn cfg(images: &str, videos: &str, tmpl: &str) -> EngineConfig {
    EngineConfig {
        images_root: images.to_string(),
        videos_root: videos.to_string(),
        images_template: tmpl.to_string(),
        videos_template: tmpl.to_string(),
        filters: FiltersConfig::default(),
        performance: PerformanceConfig::default(),
        verify: VerifyConfig::default(),
        template_warnings: Vec::new(),
    }
}

fn at(hour: u32, minute: u32, second: u32) -> DateTime {
    DateTime { year: 2026, month: 5, day: 3, hour, minute, second, nano: 0 }
}

#[test]
fn default_template_image_path() {
    let c = cfg("/photos", "/videos", "{yyyy}/{yyyy}-{mm}-{dd}");
    let p = dest_path_for(&c, MediaKind::Image { raw: true }, &at(13, 45, 7), "DSC00001.ARW").unwrap();
    assert_eq!(p, "/photos/2026/2026-05-03/DSC00001.ARW");
}

#[test]
fn yyyy_mm_dd_template_video_path() {
    let c = cfg("/photos", "/videos", "{yyyy}/{mm}/{dd}");
    let p = dest_path_for(&c, MediaKind::Video, &at(13, 45, 7), "C0001.MP4").unwrap();
    assert_eq!(p, "/videos/2026/05/03/C0001.MP4");
}

#[test]
fn raw_only_skips_jpegs() {
    assert!(!should_include(MediaKind::Image { raw: false }, RawMode::RawOnly, true, true));
    assert!(should_include(MediaKind::Image { raw: true }, RawMode::RawOnly, true, true));
}

#[test]
fn each_image_passes_one_of_the_two_raw_filters() {
    for raw in [true, false] {
        let kind = MediaKind::Image { raw };
        let only = should_include(kind, RawMode::RawOnly, true, true);
        let without = should_include(kind, RawMode::NonRawOnly, true, true);
        assert_ne!(only, without);
        assert!(should_include(kind, RawMode::All, true, true));
    }
}

fn on_disk(name: &str, size: u64) -> DirEntry {
    DirEntry { actual_name: name.to_string(), size, is_file: true }
}

fn listed(dir: &str, entries: Vec<DirEntry>) -> DedupeCache {
    let mut cache = DedupeCache::new();
    cache.load(dir, Some(entries));
    cache
}

#[test]
fn dedupe_no_existing_returns_copy() {
    let cache = listed("/lib", vec![]);
    let (action, _) = cache.decide_action_with_reason("/lib/DSC04290.ARW", "DSC04290.ARW", 100);
    assert_eq!(action, PlannedAction::Copy);
}

#[test]
fn dedupe_same_case_same_size_skips() {
    let cache = listed("/lib", vec![on_disk("DSC04290.ARW", 100)]);
    let (action, reason) = cache.decide_action_with_reason("/lib/DSC04290.ARW", "DSC04290.ARW", 100);
    assert_eq!(action, PlannedAction::SkipExists);
    assert!(reason.unwrap().contains("same size"));
}

#[test]
fn dedupe_different_case_same_size_skips() {
    let cache = listed("/lib", vec![on_disk("dsc04290.arw", 100)]);
    let (action, reason) = cache.decide_action_with_reason("/lib/DSC04290.ARW", "DSC04290.ARW", 100);
    assert_eq!(action, PlannedAction::SkipExists);
    let r = reason.unwrap();
    assert!(r.contains("different case"), "reason was: {}", r);
    assert!(r.contains("dsc04290.arw"), "reason was: {}", r);
}

#[test]
fn dedupe_different_case_different_size_errors() {
    let cache = listed("/lib", vec![on_disk("dsc04290.arw", 50)]);
    let (action, reason) = cache.decide_action_with_reason("/lib/DSC04290.ARW", "DSC04290.ARW", 100);
    assert_eq!(action, PlannedAction::Error);
    let r = reason.unwrap();
    assert!(r.contains("different size"), "reason was: {}", r);
}

#[test]
fn dedupe_reservation_prevents_same_run_overwrite() {
    let dest = "/lib/2026/2026-05-03/IMG0001.JPG";
    let mut cache = DedupeCache::new();
    assert_eq!(cache.wants(dest), Some("/lib/2026/2026-05-03".to_string()));
    cache.load("/lib/2026/2026-05-03", None);
    assert_eq!(cache.wants(dest), None);

    assert_eq!(cache.reserve(dest, "IMG0001.JPG", 100).0, PlannedAction::Copy);
    assert_eq!(cache.reserve(dest, "IMG0001.JPG", 100).0, PlannedAction::SkipExists);
}

#[test]
fn dedupe_reservation_leaves_other_folders_alone() {
    let mut cache = DedupeCache::new();
    cache.load("/lib/a", None);
    cache.load("/lib/b", None);
    assert_eq!(cache.reserve("/lib/a/X.JPG", "X.JPG", 1).0, PlannedAction::Copy);
    assert_eq!(cache.reserve("/lib/b/X.JPG", "X.JPG", 1).0, PlannedAction::Copy);
}

fn indexed(folders: &[&str], name: &str, path: &str, size: u64) -> IndexedFile {
    IndexedFile {
        folders: folders.iter().map(|f| f.to_string()).collect(),
        name: name.to_string(),
        path: NativePath::of_text(path),
        size,
    }
}

#[test]
fn dest_index_finds_file_in_nested_dir() {
    let path = "/lib/2026/2026-05-03/DSC04290.ARW";
    let idx = DestIndex::build(&vec![indexed(&["2026", "2026-05-03"], "DSC04290.ARW", path, 100)]);
    assert_eq!(idx.len(), 1);
    let hit = idx.lookup("DSC04290.ARW", 100).unwrap();
    assert_eq!(hit.text, path);
}

#[test]
fn dest_index_lookup_is_case_insensitive() {
    let idx = DestIndex::build(&vec![indexed(&["2026"], "dsc04290.arw", "/lib/2026/dsc04290.arw", 100)]);
    assert!(idx.lookup("DSC04290.ARW", 100).is_some());
    assert!(idx.lookup("dsc04290.arw", 100).is_some());
}

#[test]
fn dest_index_lowers_letters_beyond_ascii() {
    let idx = DestIndex::build(&vec![indexed(&[], "ÜBUNG.JPG", "/lib/ÜBUNG.JPG", 7)]);
    assert_eq!(idx.lookup("übung.jpg", 7), Some(&NativePath::of_text("/lib/ÜBUNG.JPG")));
}

#[test]
fn dest_index_size_mismatch_is_miss() {
    let idx = DestIndex::build(&vec![indexed(&[], "DSC04290.ARW", "/lib/DSC04290.ARW", 100)]);
    assert!(idx.lookup("DSC04290.ARW", 100).is_some());
    assert!(idx.lookup("DSC04290.ARW", 99).is_none());
}

#[test]
fn dest_index_handles_missing_root() {
    let idx = DestIndex::build(&vec![]);
    assert!(idx.is_empty());
}

#[test]
fn dest_index_excludes_staging_dir() {
    let idx = DestIndex::build(&vec![
        indexed(&["2026"], "IMG001.JPG", "/lib/2026/IMG001.JPG", 100),
        indexed(&[STAGING_DIR_NAME, "7"], "IMG002.JPG", "/lib/s/7/IMG002.JPG", 200),
    ]);
    assert!(idx.lookup("IMG001.JPG", 100).is_some());
    assert!(idx.lookup("IMG002.JPG", 200).is_none());
    assert_eq!(idx.len(), 1);
}

#[test]
fn dest_index_merges_two_roots() {
    let idx = DestIndex::build(&vec![
        indexed(&["2026"], "DSC04290.ARW", "/images/2026/DSC04290.ARW", 100),
        indexed(&["2026"], "C0001.MP4", "/videos/2026/C0001.MP4", 200),
    ]);
    assert_eq!(idx.len(), 2);
    assert!(idx.lookup("DSC04290.ARW", 100).is_some());
    assert!(idx.lookup("C0001.MP4", 200).is_some());
}

fn src_file(rel: &str, size: u64, ext: &str) -> SourceFile {
    SourceFile {
        rel_path: rel.to_string(),
        size,
        mtime: Some(at(9, 0, 0)),
        extension: ext.to_string(),
        backend_handle: BackendHandle::Path(NativePath::of_text(rel)),
    }
}

#[test]
fn cheap_plan_pairs_sidecars_filters_and_preskips() {
    let dest_index = DestIndex::build(&vec![indexed(&["2026"], "OLD.JPG", "/lib/images/2026/OLD.JPG", 10)]);
    let mut c = cfg("/lib/images", "/lib/videos", "{yyyy}/{yyyy}-{mm}-{dd}");
    c.filters.raw_mode = RawMode::NonRawOnly;

    let reg = ProfileRegistry::with_builtins().unwrap();
    let profile = reg.get("dcim-generic").unwrap();
    let sid = SourceId("s".to_string());
    let files = vec![
        src_file("DCIM/IMG001.JPG", 100, "jpg"),
        src_file("DCIM/IMG001.XMP", 5, "xmp"),
        src_file("DCIM/IMG002.ARW", 2000, "arw"),
        src_file("DCIM/VID001.MP4", 9000, "mp4"),
        src_file("DCIM/OLD.JPG", 10, "jpg"),
    ];

    let cheap = cheap_plan(&c, profile, &sid, files, &dest_index);

    assert_eq!(cheap.units.len(), 2);
    let img = cheap
        .units
        .iter()
        .find(|u| u.parent.rel_path == "DCIM/IMG001.JPG")
        .unwrap();
    assert_eq!(img.sidecars.len(), 1);
    assert_eq!(img.sidecars[0].rel_path, "DCIM/IMG001.XMP");

    assert_eq!(
        cheap.decided.iter().filter(|p| p.action == PlannedAction::SkipFiltered).count(),
        1
    );
    assert_eq!(
        cheap.decided.iter().filter(|p| p.action == PlannedAction::SkipExists).count(),
        1
    );

    let plan = cheap.into_sync_plan(&sid);
    assert_eq!(plan.copies(), 3);
    assert_eq!(plan.copies() + plan.skips() + plan.errors(), plan.items.len() as u64);
    for it in plan.items.iter().filter(|i| i.action == PlannedAction::Copy) {
        assert!(it.dest_path.is_none());
    }
}
