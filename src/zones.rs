//! Configuration lines parsed into time zones of the tz database.
use vstd::prelude::*;
use chrono_tz::{ParseError, Tz};

verus! {

#[verifier::external_type_specification]
#[verifier::external_body]
pub struct ExTz(Tz);

#[verifier::external_type_specification]
#[verifier::external_body]
pub struct ExParseError(ParseError);

/// The zone that the tz database lists under `name`, if it lists one.
pub uninterp spec fn zone_lookup(name: Seq<char>) -> Option<Tz>;

/// Relies on `<chrono_tz::Tz as FromStr>::from_str`: a lookup of the exact name
/// in the built-in table of zone names, failing with `ParseError` when it is absent.
#[verifier::external_body]
fn parse_zone(name: &str) -> (r: Result<Tz, ParseError>)
    ensures
        r is Ok <==> zone_lookup(name@) is Some,
        r is Ok ==> zone_lookup(name@) == Some(r->Ok_0),
{
    name.parse::<Tz>()
}

/// A configuration line that names no zone.
#[derive(Debug)]
pub struct ZoneError {
    /// The line as it was read.
    pub line: String,
    /// Why the lookup failed.
    pub cause: ParseError,
}

/// Every line names a zone.
pub open spec fn all_zones(lines: Seq<String>) -> bool {
    forall|i: int| 0 <= i < lines.len() ==> (#[trigger] zone_lookup(lines[i]@)) is Some
}

/// Line `k` is the first that names no zone.
pub open spec fn first_bad_line(lines: Seq<String>, k: int) -> bool {
    &&& 0 <= k < lines.len()
    &&& zone_lookup(lines[k]@) is None
    &&& all_zones(lines.subrange(0, k))
}

/// Entry `i` pairs line `i` with its zone, for each line.
pub open spec fn entries_match(entries: Seq<(String, Tz)>, lines: Seq<String>) -> bool {
    &&& entries.len() == lines.len()
    &&& forall|i: int|
        0 <= i < lines.len() ==> {
            &&& (#[trigger] entries[i]).0@ == lines[i]@
            &&& zone_lookup(lines[i]@) == Some(entries[i].1)
        }
}

/// Parses each line, in order, as a zone name; stops at the first line that is none.
pub fn parse_zones(lines: &Vec<String>) -> (r: Result<Vec<(String, Tz)>, ZoneError>)
    ensures
        r is Ok <==> all_zones(lines@),
        r is Ok ==> entries_match(r->Ok_0@, lines@),
        r is Err ==> exists|k: int| first_bad_line(lines@, k) && r->Err_0.line@ == lines@[k]@,
{
    let mut entries: Vec<(String, Tz)> = Vec::new();
    let mut i: usize = 0;
    while i < lines.len()
        invariant
            i <= lines@.len(),
            entries_match(entries@, lines@.subrange(0, i as int)),
            all_zones(lines@.subrange(0, i as int)),
        decreases lines@.len() - i,
    {
        match parse_zone(lines[i].as_str()) {
            Ok(tz) => {
                entries.push((lines[i].clone(), tz));
                assert(lines@.subrange(0, i + 1).drop_last() =~= lines@.subrange(0, i as int));
                assert(all_zones(lines@.subrange(0, i + 1))) by {
                    assert forall|j: int| 0 <= j < i + 1 implies (#[trigger] zone_lookup(
                        lines@.subrange(0, i + 1)[j]@,
                    )) is Some by {
                        if j < i {
                            assert(lines@.subrange(0, i + 1)[j] == lines@.subrange(0, i as int)[j]);
                        }
                    }
                }
            },
            Err(cause) => {
                assert(first_bad_line(lines@, i as int));
                assert(!all_zones(lines@));
                return Err(ZoneError { line: lines[i].clone(), cause });
            },
        }
        i += 1;
    }
    assert(lines@.subrange(0, lines@.len() as int) =~= lines@);
    Ok(entries)
}

} // verus!
