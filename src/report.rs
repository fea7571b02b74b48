//! The aligned report: one row for local time, then one per configured zone.
use vstd::prelude::*;
use vstd::string::StringExecFns;
use std::fmt::Write;
use chrono_tz::Tz;
use crate::text::{
    byte_len, lemma_max_byte_len_bound, lemma_padded_byte_len, lengths_fit, max_byte_len, max_len,
    pad_to_size, padded,
};

verus! {

/// The label of the first row.
pub const LOCAL_LABEL: &'static str = "Local time";

/// What stands between a padded label and its time.
pub const SEPARATOR: &'static str = "\t= ";

/// How times are written: date, hours and minutes, and the zone's abbreviation.
pub const TIME_FORMAT: &'static str = "%Y-%m-%d %H:%M %Z";

/// The instant `secs` seconds after the Unix epoch, written in `zone` with the format `fmt`.
pub uninterp spec fn zoned_time(secs: int, zone: Tz, fmt: Seq<char>) -> Seq<char>;

/// Whether the instant `secs` seconds after the Unix epoch can be written in `zone` with `fmt`.
pub uninterp spec fn zone_time_ok(secs: int, zone: Tz, fmt: Seq<char>) -> bool;

/// Relies on `chrono::DateTime::from_timestamp`, `DateTime::with_timezone` and
/// `DateTime::format`: the instant converted to `zone` through the tz database and
/// written with the strftime-style `fmt`. `None` when the instant is out of chrono's
/// range or the writing fails.
#[verifier::external_body]
fn zone_time(secs: i64, zone: Tz, fmt: &str) -> (r: Option<String>)
    ensures
        r is Some <==> zone_time_ok(secs as int, zone, fmt@),
        r is Some ==> r->Some_0@ == zoned_time(secs as int, zone, fmt@),
{
    let t = chrono::DateTime::from_timestamp(secs, 0)?.with_timezone(&zone);
    let mut out = String::new();
    match write!(out, "{}", t.format(fmt)) {
        Ok(()) => Some(out),
        Err(_) => None,
    }
}

/// The names of the entries, in order.
pub open spec fn entry_names(entries: Seq<(String, Tz)>) -> Seq<String> {
    entries.map_values(|e: (String, Tz)| e.0)
}

/// The width of the label column: the longest of the local label and the names.
pub open spec fn report_width(names: Seq<String>) -> nat {
    let m = max_byte_len(names);
    if m >= byte_len(LOCAL_LABEL@) {
        m
    } else {
        byte_len(LOCAL_LABEL@)
    }
}

/// One row: the label padded to `width`, the separator, the time.
pub open spec fn row_text(label: Seq<char>, width: nat, time: Seq<char>) -> Seq<char> {
    padded(label, width) + SEPARATOR@ + time
}

/// The label of row `i`: the local label first, then the entries' names.
pub open spec fn row_label(entries: Seq<(String, Tz)>, i: int) -> Seq<char> {
    if i == 0 {
        LOCAL_LABEL@
    } else {
        entries[i - 1].0@
    }
}

/// The local label is ten bytes long.
pub proof fn lemma_local_label_len()
    ensures
        byte_len(LOCAL_LABEL@) == 10,
{
    reveal_strlit("Local time");
    assert(vstd::utf8::is_ascii_chars(LOCAL_LABEL@));
    vstd::utf8::is_ascii_chars_encode_utf8(LOCAL_LABEL@);
}

/// With no entries the label column is as wide as the local label: ten bytes.
pub proof fn lemma_empty_width()
    ensures
        report_width(Seq::<String>::empty()) == byte_len(LOCAL_LABEL@),
        report_width(Seq::<String>::empty()) == 10,
{
    lemma_local_label_len();
}

/// The width of the label column for the entry names `names`.
pub fn label_width(names: &Vec<String>) -> (r: usize)
    requires
        lengths_fit(names@),
    ensures
        r == report_width(names@),
        names@.len() == 0 ==> r == byte_len(LOCAL_LABEL@),
        byte_len(LOCAL_LABEL@) == 10,
{
    proof {
        lemma_local_label_len();
    }
    let m = max_len(names);
    if m >= 10 {
        m
    } else {
        10
    }
}

/// One row of the report: `label` padded to `width`, the separator, then `time`.
pub fn format_row(label: &String, width: usize, time: &String) -> (r: String)
    requires
        byte_len(label@) <= usize::MAX,
    ensures
        r@ == row_text(label@, width as nat, time@),
{
    let mut row = pad_to_size(label, width);
    row.append(SEPARATOR);
    row.append(time.as_str());
    row
}

/// The rows of the report: local time under the local label, then each entry's name
/// with the time at the same index of `zone_times`, every label padded to one width.
pub fn render_rows(local_time: &String, entries: &Vec<(String, Tz)>, zone_times: &Vec<String>) -> (rows:
    Vec<String>)
    requires
        zone_times@.len() == entries@.len(),
        lengths_fit(entry_names(entries@)),
    ensures
        rows@.len() == entries@.len() + 1,
        rows@[0]@ == row_text(LOCAL_LABEL@, report_width(entry_names(entries@)), local_time@),
        forall|i: int|
            0 <= i < entries@.len() ==> (#[trigger] rows@[i + 1])@ == row_text(
                entries@[i].0@,
                report_width(entry_names(entries@)),
                zone_times@[i]@,
            ),
        forall|i: int|
            0 <= i < rows@.len() ==> byte_len(
                #[trigger] padded(row_label(entries@, i), report_width(entry_names(entries@))),
            ) == report_width(entry_names(entries@)),
{
    let ghost names_spec = entry_names(entries@);
    let mut names: Vec<String> = Vec::new();
    let mut i: usize = 0;
    while i < entries.len()
        invariant
            i <= entries@.len(),
            names@ =~= names_spec.subrange(0, i as int),
            names_spec == entry_names(entries@),
        decreases entries@.len() - i,
    {
        names.push(entries[i].0.clone());
        i += 1;
    }
    assert(names@ =~= names_spec);
    let width = label_width(&names);
    let local_label = LOCAL_LABEL.to_string();
    let mut rows: Vec<String> = Vec::new();
    rows.push(format_row(&local_label, width, local_time));
    let mut k: usize = 0;
    while k < entries.len()
        invariant
            k <= entries@.len(),
            zone_times@.len() == entries@.len(),
            lengths_fit(names_spec),
            names_spec == entry_names(entries@),
            width == report_width(names_spec),
            rows@.len() == k + 1,
            rows@[0]@ == row_text(LOCAL_LABEL@, width as nat, local_time@),
            forall|j: int|
                0 <= j < k ==> (#[trigger] rows@[j + 1])@ == row_text(
                    entries@[j].0@,
                    width as nat,
                    zone_times@[j]@,
                ),
        decreases entries@.len() - k,
    {
        assert(names_spec[k as int] == entries@[k as int].0);
        assert(byte_len(names_spec[k as int]@) <= usize::MAX);
        rows.push(format_row(&entries[k].0, width, &zone_times[k]));
        k += 1;
    }
    assert forall|i: int| 0 <= i < rows@.len() implies byte_len(
        #[trigger] padded(row_label(entries@, i), width as nat),
    ) == width as nat by {
        if i > 0 {
            assert(names_spec[i - 1] == entries@[i - 1].0);
            lemma_max_byte_len_bound(names_spec, i - 1);
        }
        lemma_padded_byte_len(row_label(entries@, i), width as nat);
    }
    rows
}

/// The report for the instant `now` (seconds since the Unix epoch): `local_time` is
/// that instant written in the local zone, and each entry's row holds the same instant
/// written in the entry's zone. `None` exactly when some zone's time cannot be written.
pub fn report(now: i64, local_time: &String, entries: &Vec<(String, Tz)>) -> (r: Option<
    Vec<String>,
>)
    requires
        lengths_fit(entry_names(entries@)),
    ensures
        r is Some <==> forall|i: int|
            0 <= i < entries@.len() ==> zone_time_ok(
                now as int,
                #[trigger] entries@[i].1,
                TIME_FORMAT@,
            ),
        r is Some ==> {
            let rows = r->Some_0@;
            let width = report_width(entry_names(entries@));
            &&& rows.len() == entries@.len() + 1
            &&& rows[0]@ == row_text(LOCAL_LABEL@, width, local_time@)
            &&& forall|i: int|
                0 <= i < entries@.len() ==> (#[trigger] rows[i + 1])@ == row_text(
                    entries@[i].0@,
                    width,
                    zoned_time(now as int, entries@[i].1, TIME_FORMAT@),
                )
        },
{
    let mut times: Vec<String> = Vec::new();
    let mut i: usize = 0;
    while i < entries.len()
        invariant
            i <= entries@.len(),
            times@.len() == i,
            forall|j: int|
                0 <= j < i ==> (#[trigger] times@[j])@ == zoned_time(
                    now as int,
                    entries@[j].1,
                    TIME_FORMAT@,
                ),
            forall|j: int|
                0 <= j < i ==> zone_time_ok(now as int, #[trigger] entries@[j].1, TIME_FORMAT@),
        decreases entries@.len() - i,
    {
        match zone_time(now, entries[i].1, TIME_FORMAT) {
            Some(t) => times.push(t),
            None => {
                assert(!zone_time_ok(now as int, entries@[i as int].1, TIME_FORMAT@));
                return None;
            },
        }
        i += 1;
    }
    Some(render_rows(local_time, entries, &times))
}

} // verus!
