use imagesync::datetime::DateTime;
use imagesync::error::Error;
use imagesync::template::PathTemplate;

fn dt(year: i32, month: u32, day: u32) -> DateTime {
    DateTime { year, month, day, hour: 13, minute: 45, second: 7, nano: 0 }
}

#[test]
fn default_template() {
    let t = PathTemplate::parse("{yyyy}/{yyyy}-{mm}-{dd}").unwrap();
    assert_eq!(t.render(&dt(2026, 5, 3)), "2026/2026-05-03");
}

#[test]
fn yyyy_mm_dd() {
    let t = PathTemplate::parse("{yyyy}/{mm}/{dd}").unwrap();
    assert_eq!(t.render(&dt(2026, 1, 9)), "2026/01/09");
}

#[test]
fn month_names() {
    let t = PathTemplate::parse("{yyyy}/{mm}-{Month}").unwrap();
    assert_eq!(t.render(&dt(2026, 5, 3)), "2026/05-May");
    let t = PathTemplate::parse("{yyyy}/{mm}-{month}").unwrap();
    assert_eq!(t.render(&dt(2026, 5, 3)), "2026/05-may");
}

#[test]
fn time_tokens() {
    let t = PathTemplate::parse("{yyyy}-{mm}-{dd}_{HH}{MM}{SS}").unwrap();
    assert_eq!(t.render(&dt(2026, 5, 3)), "2026-05-03_134507");
}

#[test]
fn rejects_unknown_token() {
    let err = PathTemplate::parse("{yyyy}/{nope}").unwrap_err();
    let msg = err.to_string();
    assert!(msg.contains("unknown token"), "{msg}");
}

#[test]
fn rejects_unterminated_token() {
    assert!(PathTemplate::parse("{yyyy/{mm}").is_err());
    assert!(matches!(PathTemplate::parse("{yyyy"), Err(Error::Template { .. })));
}

#[test]
fn rejects_absolute() {
    assert!(PathTemplate::parse("/{yyyy}").is_err());
}

#[test]
fn rejects_parent_traversal() {
    assert!(PathTemplate::parse("{yyyy}/../foo").is_err());
}

#[test]
fn literal_text_preserved() {
    let t = PathTemplate::parse("photos-{yyyy}/day-{dd}").unwrap();
    assert_eq!(t.render(&dt(2026, 5, 3)), "photos-2026/day-03");
}

#[test]
fn every_month_has_its_names() {
    let t = PathTemplate::parse("{Month}-{month}").unwrap();
    let shown: Vec<String> = (1..13).map(|m| t.render(&dt(2026, m, 1))).collect();
    assert_eq!(shown[0], "January-january");
    assert_eq!(shown[8], "September-september");
    assert_eq!(shown[11], "December-december");
}

#[test]
fn plain_text_renders_to_itself() {
    let t = PathTemplate::parse("photos/all").unwrap();
    assert_eq!(t.render(&dt(1999, 12, 31)), "photos/all");
    assert_eq!(t.raw(), "photos/all");
}

#[test]
fn rendered_folders_stay_inside() {
    let t = PathTemplate::parse("{yyyy}/{mm}").unwrap();
    let path = t.render(&dt(2026, 5, 3));
    assert!(!path.starts_with('/'));
    assert!(path.split('/').all(|part| part != ".."));
}

#[test]
fn date_parts_have_fixed_widths() {
    let t = PathTemplate::parse("{yyyy}/{yy}/{mm}-{dd}/x{HH}.{MM}.{SS}").unwrap();
    let r = t.render(&DateTime { year: 7, month: 1, day: 2, hour: 3, minute: 4, second: 5, nano: 0 });
    assert_eq!(r, "0007/07/01-02/x03.04.05");
    assert_eq!(r.matches('/').count(), t.raw().matches('/').count());
}
