use imagesync::datetime::{mtime_date, DateTime};
use imagesync::exiftool::parse_dt;

fn shown(dt: DateTime) -> String {
    format!(
        "{:04}-{:02}-{:02} {:02}:{:02}:{:02}",
        dt.year, dt.month, dt.day, dt.hour, dt.minute, dt.second
    )
}

#[test]
fn parse_iso_dt() {
    let dt = parse_dt("2026-05-03 13:45:07").unwrap();
    assert_eq!(shown(dt), "2026-05-03 13:45:07");
}

#[test]
fn parse_exif_colons_dt() {
    let dt = parse_dt("2026:05:03 13:45:07").unwrap();
    assert_eq!(shown(dt), "2026-05-03 13:45:07");
}

#[test]
fn parse_with_subseconds() {
    let dt = parse_dt("2026:05:03 13:45:07.123").unwrap();
    assert_eq!(shown(dt), "2026-05-03 13:45:07");
}

#[test]
fn no_date_is_read_from_other_text() {
    assert!(parse_dt("yesterday").is_none());
    assert!(parse_dt("2026:13:03 13:45:07").is_none());
}

#[test]
fn file_times_are_read_as_utc() {
    let epoch = mtime_date(0, 0).unwrap();
    assert_eq!(shown(epoch), "1970-01-01 00:00:00");
    let later = mtime_date(1_777_815_907, 5).unwrap();
    assert_eq!(shown(later), "2026-05-03 13:45:07");
    assert_eq!(later.nano, 5);
}

#[test]
fn file_times_agree_with_the_calendar() {
    for days in (0..400_000u64).step_by(997) {
        let secs = days * 86_400 + 86_399;
        let dt = mtime_date(secs, 7).unwrap();
        let expected = chrono::DateTime::from_timestamp(secs as i64, 7).unwrap();
        assert_eq!(shown(dt), expected.format("%Y-%m-%d %H:%M:%S").to_string());
    }
    assert!(mtime_date(1, 1_500_000_000).is_none());
    assert!(mtime_date(59, 1_500_000_000).is_some());
    assert!(mtime_date(u64::MAX / 2, 0).is_none());
}
