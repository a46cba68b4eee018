use std::path::Path;

use imagesync::datetime::DateTime;
use imagesync::error::Error;
use imagesync::exiftool::{
    blank_metadata, checked_metadata, closed_error, is_readable_date, last_metadata, parse_dt,
    pick_date, probe_version, spawn_error, Conversation, FileMetadata, LineRead, ProbeResult,
    RawEntry,
};
use imagesync::metadata::{resolve_batch, resolve_one, DateSource};
use imagesync::path::{
    components_of, extension_of, file_name_of, is_before, join_path, normalize, parent_of,
    portable, relative_to, same_path, NativePath,
};
use imagesync::source::{BackendHandle, FilesystemSource, SourceFile, WalkEntry};
use imagesync::text::{contains_text, hex_text, space_padded, trim, zero_padded};

fn day(day: u32) -> DateTime {
    DateTime { year: 2026, month: 5, day, hour: 1, minute: 2, second: 3, nano: 0 }
}

fn file(mtime: Option<DateTime>) -> SourceFile {
    SourceFile {
        rel_path: "a.jpg".to_string(),
        size: 1,
        mtime,
        extension: "jpg".to_string(),
        backend_handle: BackendHandle::Path(NativePath::of_text("/card/a.jpg")),
    }
}

#[test]
fn the_best_date_wins() {
    let all = FileMetadata {
        date_time_original: Some(day(1)),
        create_date: Some(day(2)),
        media_create_date: Some(day(3)),
        modify_date: Some(day(4)),
        make: Some("SONY".to_string()),
        model: None,
    };
    let best = resolve_one(&file(Some(day(5))), &all).unwrap();
    assert_eq!(best.datetime, day(1));
    assert_eq!(best.source, DateSource::DateTimeOriginal);
    assert!(!best.source.is_fallback());
    assert_eq!(best.make.as_deref(), Some("SONY"));
    assert_eq!(all.best_datetime(), Some(day(1)));

    let some = FileMetadata { date_time_original: None, create_date: None, ..all };
    let next = resolve_one(&file(Some(day(5))), &some).unwrap();
    assert_eq!((next.datetime, next.source), (day(3), DateSource::MediaCreateDate));
    assert_eq!(next.source.label(), "MediaCreateDate");

    let last = resolve_one(&file(Some(day(5))), &FileMetadata::default()).unwrap();
    assert_eq!((last.datetime, last.source), (day(5), DateSource::FileMtime));
    assert!(last.source.is_fallback());
    assert!(resolve_one(&file(None), &FileMetadata::default()).is_none());
    assert_eq!(pick_date(None, None, None, Some(day(4))), Some(day(4)));
}

#[test]
fn a_batch_is_resolved_in_order() {
    let dated = FileMetadata { create_date: Some(day(2)), ..FileMetadata::default() };
    let out = resolve_batch(
        &vec![file(None), file(None)],
        &vec![FileMetadata::default(), dated],
    );
    assert!(out[0].is_none());
    assert_eq!(out[1].as_ref().unwrap().datetime, day(2));
}

fn entry(source_file: Option<&str>, date: &str) -> RawEntry {
    RawEntry {
        source_file: source_file.map(|s| s.to_string()),
        date_time_original: Some(date.to_string()),
        create_date: None,
        media_create_date: None,
        modify_date: None,
        make: None,
        model: None,
    }
}

#[test]
fn answers_are_matched_by_place_or_by_path() {
    let paths = vec!["/a".to_string(), "/b".to_string()];
    let by_place = checked_metadata(
        &vec![entry(None, "2026-05-01 01:02:03"), entry(None, "2026-05-02 01:02:03")],
        &paths,
    )
    .unwrap();
    assert_eq!(by_place[0].date_time_original, Some(day(1)));
    assert_eq!(by_place[1].date_time_original, Some(day(2)));
    let by_path = checked_metadata(&vec![entry(Some("/b"), "2026-05-02 01:02:03")], &paths).unwrap();
    assert_eq!(by_path[0].date_time_original, None);
    assert_eq!(by_path[1].date_time_original, Some(day(2)));
}

#[test]
fn a_date_that_cannot_be_cut_is_noticed() {
    assert!(is_readable_date("2026-05-02 01:02:03"));
    assert!(is_readable_date("ä"));
    let odd = "2026-05-02 01:02:0ä0";
    assert!(!is_readable_date(odd));
    let spaced = "2026-05-02 \u{2003}\u{2003}\u{2003}01:02:03";
    assert!(!spaced.is_char_boundary(19));
    assert!(is_readable_date(spaced));
    assert_eq!(parse_dt(spaced), Some(day(2)));
    let paths = vec!["/a".to_string()];
    assert!(checked_metadata(&vec![entry(None, odd)], &paths).is_none());
    assert_eq!(checked_metadata(&vec![entry(None, "x")], &paths).unwrap().len(), 1);
    let unasked = vec![entry(Some("/b"), odd), entry(Some("/c"), odd)];
    assert!(checked_metadata(&unasked, &paths).unwrap()[0].best_datetime().is_none());
}

#[test]
fn exiftool_is_asked_and_answers_in_batches() {
    let mut c = Conversation::new();
    let (first, mut batch) = c.begin(&vec!["/a.jpg".to_string()]);
    assert!(first.starts_with("-json\n-charset\nfilename=UTF8\n-fast2\n-q\n-d\n%Y-%m-%d %H:%M:%S\n"));
    assert!(first.contains("-DateTimeOriginal\n"));
    assert!(first.ends_with("-MIMEType\n/a.jpg\n-execute1\n"));
    assert!(batch.is_blank());
    assert!(matches!(batch.read_line("[{}]\n"), LineRead::More));
    assert!(matches!(batch.read_line("{ready2}\n"), LineRead::More));
    assert!(matches!(batch.read_line("{ready1}\r\n"), LineRead::Ready));
    assert_eq!(batch.json, "[{}]\n{ready2}\n");
    assert!(!batch.is_blank());
    assert_eq!(
        batch.parse_error("bad").to_string(),
        "exiftool error: failed to parse exiftool JSON (14 bytes): bad"
    );
    let paths = vec!["/a.jpg".to_string()];
    let bad = batch.conclude(&paths, &Err("bad".to_string())).unwrap();
    assert!(matches!(bad, Err(Error::Exiftool(_))));
    let good = batch.conclude(&paths, &Ok(vec![entry(None, "2026-05-02 01:02:03")])).unwrap();
    assert_eq!(good.unwrap()[0].date_time_original, Some(day(2)));
    assert!(batch.conclude(&paths, &Ok(vec![entry(None, "2026-05-02 01:02:0ä0")])).is_none());
    let (_, silent) = c.begin(&paths);
    let nothing = silent.conclude(&paths, &Err("EOF".to_string())).unwrap().unwrap();
    assert!(nothing.len() == 1 && nothing[0].best_datetime().is_none());
    let (second, _) = c.begin(&vec![]);
    assert!(second.ends_with("-execute3\n"));
    assert_eq!(blank_metadata(3).len(), 3);
    assert!(last_metadata(&vec![]).best_datetime().is_none());
}

#[test]
fn exiftool_failures_are_told_apart() {
    assert!(matches!(probe_version(&ProbeResult::NotFound), Err(Error::ExiftoolMissing)));
    let failed = probe_version(&ProbeResult::Failed("denied".to_string())).unwrap_err();
    assert_eq!(failed.to_string(), "exiftool error: failed to run exiftool: denied");
    let exited = ProbeResult::Exited {
        success: false,
        status: "exit status: 1".to_string(),
        stdout: String::new(),
    };
    assert_eq!(
        probe_version(&exited).unwrap_err().to_string(),
        "exiftool error: exiftool exited with status exit status: 1"
    );
    let good = ProbeResult::Exited {
        success: true,
        status: String::new(),
        stdout: "12.76\n".to_string(),
    };
    assert_eq!(probe_version(&good).unwrap(), "12.76");
    assert!(matches!(spawn_error(true, "x"), Error::ExiftoolMissing));
    assert_eq!(
        spawn_error(false, "x").to_string(),
        "exiftool error: failed to spawn exiftool: x"
    );
    assert_eq!(
        closed_error().to_string(),
        "exiftool error: exiftool stdout closed unexpectedly"
    );
}

#[test]
fn every_error_has_its_message() {
    let t = |s: &str| s.to_string();
    let shown: Vec<String> = vec![
        Error::io("/p", "denied"),
        Error::IoBare(t("odd")),
        Error::Config(t("c")),
        Error::Template { template: t("{x}"), message: t("m") },
        Error::Metadata { path: t("/p"), message: t("m") },
        Error::Profile(t("p")),
        Error::Source(t("s")),
        Error::DestRootMissing { path: t("/r"), kind: "images_root" },
        Error::DestRootNotDir { path: t("/r"), kind: "videos_root" },
        Error::DestinationLocked { path: t("/r") },
        Error::Cancelled,
        Error::Internal(t("i")),
        Error::TomlDe(t("d")),
        Error::TomlSer(t("s")),
        Error::Json(t("j")),
    ]
    .iter()
    .map(|e| e.to_string())
    .collect();
    assert_eq!(
        shown,
        [
            "io error at /p: denied",
            "io error: odd",
            "config error: c",
            "invalid path template `{x}`: m",
            "metadata parse error for /p: m",
            "profile error: p",
            "source error: s",
            "destination root not found: /r (images_root). Create it with `mkdir -p /r`, or check that the drive is mounted.",
            "destination root is not a directory: /r (videos_root)",
            "another ImageSync import is already using destination root: /r",
            "operation cancelled",
            "internal error: i",
            "toml parse error: d",
            "toml serialize error: s",
            "json error: j",
        ]
    );
}

#[test]
fn paths_agree_with_the_standard_library() {
    let paths = [
        "/a/b/c.JPG", "a", "/", "", "a/", "a//b", "./a", "a/..", ".hidden", "a.tar.gz", "/x/.",
        "..", "../a", "a/./b", "a/b/../c", "//a", "/..", ".", "./", "a/.", "..a", "a..", "a.",
        "/a/./b/", "./.", "/.", "a/b", "a/b/", "/a", "/a/", "b/a", ".a.b", "a/..b", "...",
    ];
    let own = |x: &Path| x.to_string_lossy().into_owned();
    for p in paths {
        let q = Path::new(p);
        assert_eq!(parent_of(p), q.parent().map(own), "parent of {p}");
        assert_eq!(
            file_name_of(p),
            q.file_name().map(|x| x.to_string_lossy().into_owned()),
            "name of {p}"
        );
        assert_eq!(
            extension_of(p),
            q.extension().map(|x| x.to_string_lossy().into_owned()),
            "extension of {p}"
        );
        assert_eq!(components_of(p).len(), q.components().count(), "components of {p}");
        for r in paths {
            let t = Path::new(r);
            assert_eq!(join_path(p, r), own(&q.join(r)), "{p} with {r}");
            assert_eq!(same_path(p, r), q == t, "{p} and {r}");
            assert_eq!(normalize(p) == normalize(r), q == t, "{p} and {r} in short");
            assert_eq!(is_before(p, r), q < t, "{p} before {r}");
            assert_eq!(relative_to(p, r), q.strip_prefix(r).ok().map(own), "{p} below {r}");
        }
    }
    assert_eq!(normalize("a//b/./c/"), "a/b/c");
    assert_eq!(parent_of(&join_path("/lib/2026", "a.jpg")).as_deref(), Some("/lib/2026"));
}

#[test]
fn texts_agree_with_the_standard_library() {
    for s in ["", " a ", "\t\u{a0}x\u{2003}\n", "ä ö"] {
        assert_eq!(trim(s), s.trim());
    }
    assert_eq!(zero_padded("7", 3), format!("{:0>3}", "7"));
    assert_eq!(space_padded("äb", 5), format!("{:<5}", "äb"));
    assert_eq!(hex_text(0xabc, 8), format!("{:08x}", 0xabc));
    assert!(contains_text("xFAILx", "FAIL"));
    assert!(contains_text("abc", ""));
    assert!(!contains_text("FAI", "FAIL"));
}

#[test]
fn only_existing_subdirectories_are_scanned() {
    let source = FilesystemSource::new("card", "Card", NativePath::of_text("/card"))
        .with_subdirs(vec!["DCIM".to_string(), "PRIVATE".to_string()]);
    assert_eq!(source.candidate_roots(), ["/card/DCIM", "/card/PRIVATE"]);
    assert_eq!(source.scan_roots(&vec![false, true]), ["/card/PRIVATE"]);
    assert_eq!(source.scan_roots(&vec![false, false]), ["/card"]);
    let whole = FilesystemSource::new("card", "Card", NativePath::of_text("/card"));
    assert_eq!(whole.scan_roots(&vec![true; whole.candidate_roots().len()]), ["/card"]);
    let ptp = SourceFile { backend_handle: BackendHandle::PtpObject(1), ..file(None) };
    assert_eq!(
        whole.full_path(&ptp).unwrap_err().to_string(),
        "source error: FilesystemSource cannot resolve PTP handles"
    );
}

#[test]
fn windows_paths_are_read_with_slashes() {
    assert_eq!(portable("E:\\DCIM\\X.JPG", true), "E:/DCIM/X.JPG");
    assert_eq!(portable("/card/a\\b.jpg", false), "/card/a\\b.jpg");
    let source = FilesystemSource::new("card", "Card", NativePath::of_text(&portable("E:\\", true)));
    let files = source.list_files(vec![WalkEntry::File {
        path: NativePath::of_text(&portable("E:\\DCIM\\X.JPG", true)),
        plain_extension: true,
        size: 1,
        modified: None,
    }]);
    assert_eq!(files[0].rel_path, "DCIM/X.JPG");
}

#[test]
fn paths_that_are_no_text_keep_their_bytes() {
    let card = NativePath::of_text("/card");
    assert_eq!(card.bytes, b"/card");
    let source = FilesystemSource::new("card", "Card", card);
    let walked = |bytes: &[u8], plain_extension: bool| WalkEntry::File {
        path: NativePath {
            text: String::from_utf8_lossy(bytes).into_owned(),
            bytes: bytes.to_vec(),
        },
        plain_extension,
        size: 1,
        modified: None,
    };
    let files = source.list_files(vec![
        walked(b"/card/caf\xe9.JPG", true),
        walked(b"/card/caf\xe8.JPG", true),
        walked(b"/card/x.jp\xff", false),
    ]);
    assert_eq!(files[0].rel_path, "caf\u{fffd}.JPG");
    assert_eq!(files[1].rel_path, "caf\u{fffd}.JPG");
    assert_eq!(files[0].extension, "jpg");
    assert_eq!(files[2].extension, "");
    assert_eq!(source.full_path(&files[0]).unwrap().bytes, b"/card/caf\xe9.JPG");
    assert_eq!(source.full_path(&files[1]).unwrap().bytes, b"/card/caf\xe8.JPG");
    assert_eq!(source.root_path().text, "/card");
}

#[test]
fn white_space_is_that_of_unicode() {
    for c in (0..=0x10ffff).filter_map(char::from_u32) {
        let text = format!("{c}x{c}");
        let kept = if c.is_whitespace() { "x" } else { text.as_str() };
        if c.is_whitespace() || (c as u32) % 97 == 0 || (c as u32) < 0x3100 {
            assert_eq!(trim(&text), kept, "{:x}", c as u32);
        }
    }
}
