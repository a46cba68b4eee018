use imagesync::config::{
    AppConfig, CatalogueConfig, CatalogueMap, EngineConfig, FiltersConfig, PerformanceConfig,
    RawMode, VerifyAlgorithm, VerifyConfig,
};
use imagesync::error::Error;
use imagesync::roots::{check_dest_root, lock_order, lock_outcome, lock_path, LockResult, RootState};
use imagesync::path::NativePath;

const TEMPLATE: &str = "{yyyy}/{yyyy}-{mm}-{dd}";

fn catalogue(images_root: &str, videos_root: &str) -> CatalogueConfig {
    CatalogueConfig {
        images_root: images_root.to_string(),
        videos_root: videos_root.to_string(),
        images_template: TEMPLATE.to_string(),
        videos_template: TEMPLATE.to_string(),
    }
}

fn offline(images: &str, videos: &str, images_template: &str, videos_template: &str) -> CatalogueConfig {
    CatalogueConfig {
        images_root: images.to_string(),
        videos_root: videos.to_string(),
        images_template: images_template.to_string(),
        videos_template: videos_template.to_string(),
    }
}

fn loaded(entries: Vec<(&str, CatalogueConfig)>) -> Result<AppConfig, Error> {
    let mut cfg = AppConfig::default();
    for (name, catalogue) in entries {
        cfg.catalogues.insert(name.to_string(), catalogue);
    }
    cfg.validate_catalogues()?;
    Ok(cfg)
}

#[test]
fn loads_catalogues_in_btree_order() {
    let cfg = loaded(vec![
        ("Zebra", offline("/offline/images-z", "/offline/videos-z", "{yyyy}", "{yyyy}")),
        ("Alpha", offline("/offline/images-a", "/offline/videos-a", "{yyyy}/{mm}", "{yyyy}/{mm}")),
    ])
    .unwrap();
    assert_eq!(cfg.catalogues.keys(), ["Alpha", "Zebra"]);
}

#[test]
fn rejects_invalid_deserialized_catalogue_names() {
    let plain = || offline("/offline/images", "/offline/videos", "{yyyy}", "{yyyy}");
    assert!(loaded(vec![("", plain())]).is_err());
    assert!(loaded(vec![(" Photos ", plain())]).is_err());
    assert!(loaded(vec![
        ("Photos", plain()),
        ("photos", offline("/offline/images-2", "/offline/videos-2", "{yyyy}", "{yyyy}")),
    ])
    .is_err());
}

#[test]
fn rejects_stored_invalid_templates() {
    let err = loaded(vec![(
        "Photos",
        offline("/offline/images", "/offline/videos", "{unknown}", "{yyyy}"),
    )])
    .unwrap_err();
    assert!(matches!(err, Error::Config(_)));
}

#[test]
fn lookup_is_trimmed_case_insensitive_and_lists_available_names() {
    let mut cfg = AppConfig::default();
    cfg.catalogues.insert(
        "Film".to_string(),
        catalogue("/offline/film-images", "/offline/film-videos"),
    );
    cfg.catalogues.insert(
        "Photos".to_string(),
        catalogue("/offline/photo-images", "/offline/photo-videos"),
    );

    assert_eq!(cfg.catalogue(" photos ").unwrap().images_root, "/offline/photo-images");
    assert_eq!(
        cfg.catalogue("missing").unwrap_err().to_string(),
        "config error: catalogue \"missing\" not found; available: Film, Photos"
    );
    assert_eq!(
        AppConfig::default().catalogue("missing").unwrap_err().to_string(),
        "config error: catalogue \"missing\" not found; available: none"
    );
}

#[test]
fn insertion_validates_name_templates_and_roots() {
    let here = RootState::Directory;
    let mut cfg = AppConfig::default();
    let key = cfg
        .insert_catalogue("  My Photos  ", catalogue("/lib/images", "/lib/videos"), &here, &here)
        .unwrap();
    assert_eq!(key, "My Photos");
    assert!(cfg.catalogues.contains_key("My Photos"));

    assert!(cfg
        .insert_catalogue("my photos", catalogue("/lib/images", "/lib/videos"), &here, &here)
        .unwrap_err()
        .to_string()
        .contains("conflicts with existing catalogue \"My Photos\""));
    assert!(cfg
        .insert_catalogue("", catalogue("/lib/images", "/lib/videos"), &here, &here)
        .is_err());

    let mut invalid_template = catalogue("/lib/images", "/lib/videos");
    invalid_template.images_template = "{unknown}".to_string();
    assert!(cfg.insert_catalogue("Bad template", invalid_template, &here, &here).is_err());
    assert!(matches!(
        cfg.insert_catalogue(
            "Missing root",
            catalogue("/lib/missing", "/lib/videos"),
            &RootState::Missing,
            &here
        ),
        Err(Error::DestRootMissing { .. })
    ));
    assert!(matches!(
        cfg.insert_catalogue(
            "File root",
            catalogue("/lib/images", "/lib/file"),
            &here,
            &RootState::NotDirectory
        ),
        Err(Error::DestRootNotDir { .. })
    ));
    assert_eq!(cfg.catalogues.keys(), ["My Photos"]);
}

#[test]
fn equal_roots_are_valid_and_runtime_selection_preserves_globals() {
    let root = "/tmp/media";
    let mut cfg = AppConfig::default();
    cfg.filters.raw_mode = RawMode::RawOnly;
    cfg.filters.include_videos = false;
    cfg.performance.scan_workers = 7;
    cfg.verify.enabled = true;
    cfg.insert_catalogue(
        "Combined",
        offline(root, root, "{yyyy}/images", "{yyyy}/videos"),
        &RootState::Directory,
        &RootState::Directory,
    )
    .unwrap();

    let runtime = EngineConfig::try_from_catalogue(&cfg, "combined").unwrap();
    assert_eq!(runtime.images_root, root);
    assert_eq!(runtime.videos_root, runtime.images_root);
    assert_eq!(runtime.images_template, "{yyyy}/images");
    assert_eq!(runtime.videos_template, "{yyyy}/videos");
    assert_eq!(runtime.filters.raw_mode, RawMode::RawOnly);
    assert!(!runtime.filters.include_videos);
    assert_eq!(runtime.performance.scan_workers, 7);
    assert!(runtime.verify.enabled);
    assert!(runtime.template_warnings.is_empty());
}

#[test]
fn defaults_are_those_of_a_fresh_configuration() {
    let cfg = AppConfig::default();
    assert!(cfg.catalogues.is_empty());
    assert_eq!(cfg.filters, FiltersConfig { raw_mode: RawMode::All, include_videos: true, include_sidecars: true });
    assert_eq!(cfg.performance, PerformanceConfig { scan_workers: 0, metadata_batch_size: 50, copy_workers: 1 });
    assert_eq!(cfg.verify, VerifyConfig { enabled: false, algorithm: VerifyAlgorithm::Xxh3 });
}

#[test]
fn an_unfit_template_or_name_stops_the_run() {
    let mut cfg = AppConfig::default();
    cfg.catalogues.insert("Photos".to_string(), offline("/i", "/v", "{nope}", "{yyyy}"));
    assert!(EngineConfig::try_from_catalogue(&cfg, "photos").is_err());
    assert!(EngineConfig::try_from_catalogue(&cfg, "none").is_err());
}

#[test]
fn scan_workers_follow_the_processors_unless_set() {
    let mut cfg = AppConfig::default();
    cfg.catalogues.insert("P".to_string(), catalogue("/i", "/v"));
    let automatic = EngineConfig::try_from_catalogue(&cfg, "p").unwrap();
    assert!(automatic.scan_workers() >= 1);
    assert_eq!(automatic.scan_workers(), automatic.scan_workers_on(num_cpus::get()));
    cfg.performance.scan_workers = 3;
    let fixed = EngineConfig::try_from_catalogue(&cfg, "p").unwrap();
    assert_eq!(fixed.scan_workers(), 3);
}

#[test]
fn a_stored_catalogue_replaces_its_namesake() {
    let mut map = CatalogueMap::new();
    map.insert("B".to_string(), catalogue("/b", "/b"));
    map.insert("A".to_string(), catalogue("/a", "/a"));
    map.insert("B".to_string(), catalogue("/b2", "/b2"));
    assert_eq!(map.len(), 2);
    assert_eq!(map.name_at(0), "A");
    assert_eq!(map.get("B").unwrap().images_root, "/b2");
    assert_eq!(map.at(1).images_root, "/b2");
    assert!(map.get("C").is_none());
}

#[test]
fn check_dest_root_accepts_existing_dir() {
    check_dest_root("/lib", "images_root", &RootState::Directory).unwrap();
}

#[test]
fn check_dest_root_accepts_empty_dir() {
    check_dest_root("/lib/empty", "images_root", &RootState::Directory).unwrap();
}

#[test]
fn check_dest_root_rejects_missing_path() {
    let err = check_dest_root("/lib/does-not-exist", "videos_root", &RootState::Missing).unwrap_err();
    match err {
        Error::DestRootMissing { path, kind } => {
            assert_eq!(path, "/lib/does-not-exist");
            assert_eq!(kind, "videos_root");
        }
        other => panic!("expected DestRootMissing, got {other:?}"),
    }
}

#[test]
fn check_dest_root_rejects_regular_file() {
    let err = check_dest_root("/lib/a-file", "images_root", &RootState::NotDirectory).unwrap_err();
    match err {
        Error::DestRootNotDir { path, kind } => {
            assert_eq!(path, "/lib/a-file");
            assert_eq!(kind, "images_root");
        }
        other => panic!("expected DestRootNotDir, got {other:?}"),
    }
}

#[test]
fn an_unreadable_root_is_an_io_error() {
    let state = RootState::Failed("permission denied".to_string());
    let err = check_dest_root("/lib", "images_root", &state).unwrap_err();
    assert_eq!(err.to_string(), "io error at /lib: permission denied");
}

#[test]
fn both_runs_lock_the_roots_in_the_same_order() {
    assert_eq!(lock_order("/b", "/a"), ["/a", "/b"]);
    assert_eq!(lock_order("/a", "/b"), ["/a", "/b"]);
    assert_eq!(lock_order("/a", "/a"), ["/a"]);
    assert_eq!(lock_path("/a"), "/a/.imagesync.lock");
}

#[test]
fn a_held_lock_is_reported_as_locked() {
    assert!(lock_outcome("/a", &LockResult::Locked).is_ok());
    let held = lock_outcome("/a", &LockResult::WouldBlock).unwrap_err();
    assert!(matches!(held, Error::DestinationLocked { .. }));
}

#[test]
fn the_configuration_has_its_place() {
    let dir = Some(NativePath::of_text("/home/zoe/.config/imagesync"));
    assert_eq!(
        AppConfig::default_path_in(&dir),
        Some(NativePath::of_text("/home/zoe/.config/imagesync/config.toml"))
    );
    assert!(AppConfig::default_path_in(&None).is_none());
    if let Some(path) = AppConfig::default_path() {
        assert!(path.text.ends_with("imagesync/config.toml"), "{}", path.text);
        assert!(path.bytes.ends_with(b"imagesync/config.toml"));
    }
}
