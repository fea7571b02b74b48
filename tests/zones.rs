use tzclock::parse_zones;

fn lines(v: &[&str]) -> Vec<String> {
    v.iter().map(|s| s.to_string()).collect()
}

#[test]
fn parse_single_kolkata_line() {
    let entries = parse_zones(&lines(&["Asia/Kolkata"])).unwrap();
    assert_eq!(entries.len(), 1);
    assert_eq!(entries[0].0, "Asia/Kolkata");
    assert_eq!(entries[0].1, chrono_tz::Asia::Kolkata);
}

#[test]
fn parse_keeps_order_and_duplicates() {
    let entries = parse_zones(&lines(&["Europe/London", "UTC", "Europe/London"])).unwrap();
    let names: Vec<&str> = entries.iter().map(|e| e.0.as_str()).collect();
    assert_eq!(names, vec!["Europe/London", "UTC", "Europe/London"]);
    assert_eq!(entries[0].1, chrono_tz::Europe::London);
    assert_eq!(entries[1].1, chrono_tz::UTC);
    assert_eq!(entries[2].1, chrono_tz::Europe::London);
}

#[test]
fn parse_no_lines() {
    assert!(parse_zones(&vec![]).unwrap().is_empty());
}

#[test]
fn parse_invalid_line_alone() {
    let err = parse_zones(&lines(&["Not/AZone"])).err().unwrap();
    assert_eq!(err.line, "Not/AZone");
}

#[test]
fn parse_reports_first_invalid_line_after_valid_ones() {
    let err = parse_zones(&lines(&["Asia/Kolkata", "Not/AZone", "Also/Bad"])).err().unwrap();
    assert_eq!(err.line, "Not/AZone");
    assert_eq!(err.cause.to_string(), "failed to parse timezone");
}

#[test]
fn parse_rejects_blank_line() {
    let err = parse_zones(&lines(&["Asia/Kolkata", ""])).err().unwrap();
    assert_eq!(err.line, "");
}

#[test]
fn parse_does_not_trim() {
    let err = parse_zones(&lines(&["Asia/Kolkata "])).err().unwrap();
    assert_eq!(err.line, "Asia/Kolkata ");
}
