use imagesync::config::RawMode;
use imagesync::tui::labels::{human_bytes, next_raw_mode, previous_raw_mode, push_log, trim_label};

#[test]
fn human_bytes_formats() {
    assert_eq!(human_bytes(0), "0 B");
    assert_eq!(human_bytes(2048), "2.0 KiB");
    assert!(human_bytes(5 * 1024 * 1024).contains("MiB"));
    assert!(human_bytes(2 * 1024 * 1024 * 1024).contains("GiB"));
}

fn by_doubles(b: u64) -> String {
    let n = b as f64;
    if b >= 1 << 30 {
        format!("{:.1} GiB", n / (1u64 << 30) as f64)
    } else if b >= 1 << 20 {
        format!("{:.1} MiB", n / (1u64 << 20) as f64)
    } else if b >= 1 << 10 {
        format!("{:.1} KiB", n / (1u64 << 10) as f64)
    } else {
        format!("{b} B")
    }
}

#[test]
fn human_bytes_rounds_as_doubles_do() {
    assert_eq!(human_bytes(1023), "1023 B");
    assert_eq!(human_bytes(1280), "1.2 KiB");
    assert_eq!(human_bytes(1792), "1.8 KiB");
    assert_eq!(human_bytes(u64::MAX), "17179869184.0 GiB");
    for shift in 10..64 {
        for step in [0u64, 1, 3, 5, 7, 9, 11, 13] {
            let base = 1u64 << shift;
            for near in [base / 4 * step, base / 16 * step, base / 20 * step] {
                for b in [near.wrapping_sub(1), near, near.wrapping_add(1), base.wrapping_add(near)] {
                    assert_eq!(human_bytes(b), by_doubles(b), "{b}");
                }
            }
        }
    }
}

#[test]
fn trim_label_truncates() {
    assert_eq!(trim_label("short", 10), "short");
    let long = "a".repeat(50);
    let t = trim_label(&long, 10);
    assert_eq!(t.chars().count(), 10);
    assert!(t.ends_with('…'));
}

#[test]
fn trim_label_counts_characters() {
    assert_eq!(trim_label("äöü", 3), "äöü");
    assert_eq!(trim_label("äöüß", 3), "äö…");
    assert_eq!(trim_label("ab", 0), "…");
}

#[test]
fn push_log_caps_history() {
    let mut v = Vec::new();
    for i in 0..600 {
        push_log(&mut v, format!("{i}"));
    }
    assert_eq!(v.len(), 500);
    assert_eq!(v[0], "100");
    assert_eq!(v[499], "599");
}

#[test]
fn raw_modes_go_round() {
    for mode in [RawMode::All, RawMode::RawOnly, RawMode::NonRawOnly] {
        assert_eq!(previous_raw_mode(next_raw_mode(mode)), mode);
        assert_eq!(next_raw_mode(next_raw_mode(next_raw_mode(mode))), mode);
    }
}
