use chrono_tz::Tz;
use tzclock::report::{format_row, label_width, LOCAL_LABEL, TIME_FORMAT};
use tzclock::{render_rows, report};

fn entry(name: &str, tz: Tz) -> (String, Tz) {
    (name.to_string(), tz)
}

#[test]
fn label_width_without_entries() {
    assert_eq!(label_width(&vec![]), LOCAL_LABEL.len());
    assert_eq!(label_width(&vec![]), 10);
}

#[test]
fn label_width_with_longer_name() {
    assert_eq!(label_width(&vec!["Asia/Kolkata".to_string()]), 12);
    assert_eq!(label_width(&vec!["UTC".to_string()]), 10);
}

#[test]
fn format_row_exact() {
    assert_eq!(format_row(&"UTC".to_string(), 5, &"t".to_string()), "UTC  \t= t");
}

#[test]
fn render_rows_pads_every_label_to_twelve() {
    let entries = vec![entry("Asia/Kolkata", chrono_tz::Asia::Kolkata)];
    let rows = render_rows(&"L".to_string(), &entries, &vec!["K".to_string()]);
    assert_eq!(rows, vec!["Local time  \t= L".to_string(), "Asia/Kolkata\t= K".to_string()]);
    for row in &rows {
        assert_eq!(row.find('\t'), Some(12));
    }
}

#[test]
fn render_rows_without_entries_has_one_row() {
    let rows = render_rows(&"L".to_string(), &vec![], &vec![]);
    assert_eq!(rows, vec!["Local time\t= L".to_string()]);
}

#[test]
fn report_writes_each_zone_at_the_epoch() {
    let entries = vec![entry("UTC", chrono_tz::UTC), entry("Asia/Kolkata", chrono_tz::Asia::Kolkata)];
    let rows = report(0, &"L".to_string(), &entries).unwrap();
    assert_eq!(
        rows,
        vec![
            "Local time  \t= L".to_string(),
            "UTC         \t= 1970-01-01 00:00 UTC".to_string(),
            "Asia/Kolkata\t= 1970-01-01 05:30 IST".to_string(),
        ]
    );
}

#[test]
fn report_rows_share_one_instant() {
    let now: i64 = 1_700_000_000;
    let entries = vec![
        entry("UTC", chrono_tz::UTC),
        entry("Asia/Kolkata", chrono_tz::Asia::Kolkata),
        entry("America/New_York", chrono_tz::America::New_York),
    ];
    let rows = report(now, &"L".to_string(), &entries).unwrap();
    let instant = chrono::DateTime::from_timestamp(now, 0).unwrap();
    for (i, (name, tz)) in entries.iter().enumerate() {
        let expected = instant.with_timezone(tz).format(TIME_FORMAT).to_string();
        assert_eq!(rows[i + 1], format!("{:16}\t= {}", name, expected));
    }
    assert_eq!(rows[1], "UTC             \t= 2023-11-14 22:13 UTC");
    assert_eq!(rows[2], "Asia/Kolkata    \t= 2023-11-15 03:43 IST");
    assert_eq!(rows[3], "America/New_York\t= 2023-11-14 17:13 EST");
}

#[test]
fn report_out_of_range_instant() {
    let entries = vec![entry("UTC", chrono_tz::UTC)];
    assert!(report(i64::MAX, &"L".to_string(), &entries).is_none());
    assert!(report(i64::MAX, &"L".to_string(), &vec![]).is_some());
}
