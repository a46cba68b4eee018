use imagesync::error::Error;
use imagesync::mount::{detect_mounts, is_boot_volume, is_user_wrapper, linux_mount_roots, windows_mount, FoundMount, MountRank};
use imagesync::path::NativePath;
use imagesync::profiles::{is_profile_file, user_profile_error, CameraProfile, ExtensionKind, MatchRules, ProfileRegistry};

#[test]
fn builtins_load() {
    let r = ProfileRegistry::with_builtins().unwrap();
    assert!(r.get("sony-a7m4").is_some());
    assert!(r.get("dcim-generic").is_some());
}

#[test]
fn sony_classifies_arw_as_raw() {
    let r = ProfileRegistry::with_builtins().unwrap();
    let p = r.get("sony-a7m4").unwrap();
    assert_eq!(p.classify_extension("ARW"), Some(ExtensionKind::RawImage));
    assert_eq!(p.classify_extension("arw"), Some(ExtensionKind::RawImage));
    assert_eq!(p.classify_extension("JPG"), Some(ExtensionKind::Image));
    assert_eq!(p.classify_extension("MP4"), Some(ExtensionKind::Video));
    assert_eq!(p.classify_extension("XMP"), Some(ExtensionKind::Sidecar));
    assert_eq!(p.classify_extension("zzz"), None);
}

#[test]
fn inserting_a_known_id_replaces_the_profile() {
    let mut r = ProfileRegistry::with_builtins().unwrap();
    let n = r.iter().len();
    r.insert(CameraProfile {
        id: "dcim-generic".to_string(),
        display_name: "Mine".to_string(),
        match_rules: MatchRules::default(),
        image_extensions: vec!["png".to_string()],
        raw_extensions: vec![],
        video_extensions: vec![],
        sidecar_extensions: vec![],
        dcim_subdirs: vec![],
    });
    assert_eq!(r.iter().len(), n);
    assert_eq!(r.get("dcim-generic").unwrap().display_name, "Mine");
}

#[test]
fn detection_falls_back_to_the_generic_profile() {
    let r = ProfileRegistry::with_builtins().unwrap();
    assert_eq!(r.detect_for_source("/card", &vec![]).id, "dcim-generic");
    let markers = r.marker_candidates("/card");
    assert!(!markers.is_empty());
    assert_ne!(r.detect_for_source("/card", &markers).id, "");
}

#[test]
fn rank_ordering_camera_first() {
    assert!(MountRank::CameraCard < MountRank::Removable);
    assert!(MountRank::Removable < MountRank::Other);
}

#[test]
fn detect_does_not_panic() {
    let _ = detect_mounts(&vec![]);
}

fn volume(path: &str, rank: MountRank, has_dcim: bool) -> FoundMount {
    FoundMount {
        path: NativePath::of_text(path),
        label: path.rsplit('/').next().unwrap().to_string(),
        rank,
        exists: true,
        has_dcim,
        canonical: path.as_bytes().to_vec(),
    }
}

#[test]
fn camera_cards_are_offered_first() {
    let mounts = detect_mounts(&vec![
        volume("/media/zoe/USB", MountRank::Removable, false),
        volume("/media/zoe/CARD", MountRank::Removable, true),
        volume("/media/zoe/CARD", MountRank::Removable, true),
    ]);
    assert_eq!(mounts.len(), 2);
    assert_eq!(mounts[0].label, "CARD");
    assert_eq!(mounts[0].rank, MountRank::CameraCard);
    assert_eq!(mounts[1].label, "USB");
}

#[test]
fn a_place_is_offered_once_under_any_name() {
    let at = |path: &str, canonical: &str| FoundMount {
        canonical: canonical.as_bytes().to_vec(),
        ..volume(path, MountRank::Removable, false)
    };
    let mounts = detect_mounts(&vec![
        at("/media/a", "/media/x"),
        at("/media/b", "/media/b"),
        at("/media/c", "/media/x"),
    ]);
    let labels: Vec<&str> = mounts.iter().map(|m| m.label.as_str()).collect();
    assert_eq!(labels, ["a", "b"]);
}

#[test]
fn mount_roots_depend_on_the_user() {
    let user = Some("zoe".to_string());
    assert!(linux_mount_roots(&user).iter().any(|r| r == "/media/zoe"));
    assert!(is_user_wrapper("/media", "zoe", &user));
    assert!(!is_user_wrapper("/media", "CARD", &user));
}

#[test]
fn windows_volumes_lose_their_backslashes() {
    assert_eq!(windows_mount("E:\\", true), Some(("E:".to_string(), MountRank::Removable)));
    assert_eq!(windows_mount("F:\\\\", false), Some(("F:".to_string(), MountRank::Other)));
    assert_eq!(windows_mount("c:\\", false), None);
}

#[test]
fn the_boot_volume_is_recognised() {
    let root = Some("/".to_string());
    assert!(is_boot_volume(&Some("/".to_string()), &root));
    assert!(!is_boot_volume(&Some("/Volumes/CARD".to_string()), &root));
    assert!(!is_boot_volume(&None, &root));
}

#[test]
fn profiles_of_the_user_are_toml_files() {
    assert!(is_profile_file("/p/mine.toml"));
    assert!(!is_profile_file("/p/mine.TOML"));
    assert!(!is_profile_file("/p/.toml"));
    let e = user_profile_error("/p/x.toml", &Error::TomlDe("bad".to_string()));
    assert_eq!(
        e.to_string(),
        "profile error: failed to parse user profile /p/x.toml: toml parse error: bad"
    );
}
