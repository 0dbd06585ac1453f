//! How a stored timestamp is shown in the history list.
use vstd::prelude::*;

verus! {

/// What chrono makes of an RFC 3339 timestamp formatted as `dd.mm. HH:MM`
/// in the timestamp's own offset, or `None` where it does not parse.
pub uninterp spec fn short_time_of(ts: Seq<char>) -> Option<Seq<char>>;

pub const UNKNOWN_TIME: &'static str = "?";

/// Relies on chrono's `DateTime::parse_from_rfc3339` and `DateTime::format`
/// with `%d.%m. %H:%M`: the result depends on the text alone.
#[verifier::external_body]
fn short_time(ts: &str) -> (r: Option<String>)
    ensures
        match r {
            Some(s) => short_time_of(ts@) == Some(s@),
            None => short_time_of(ts@) is None,
        },
{
    chrono::DateTime::parse_from_rfc3339(ts).ok().map(|dt| dt.format("%d.%m. %H:%M").to_string())
}

/// The label of a timestamp: its short form, or `?` where it does not parse.
pub fn timestamp_label(ts: &str) -> (r: String)
    ensures
        r@ == label_of(short_time_of(ts@)),
{
    label_for(short_time(ts))
}

/// The label for a parse result: the short form, or `?`.
pub open spec fn label_of(parsed: Option<Seq<char>>) -> Seq<char> {
    match parsed {
        Some(s) => s,
        None => UNKNOWN_TIME@,
    }
}

/// Picks the label for an already formatted timestamp, if any.
pub fn label_for(parsed: Option<String>) -> (r: String)
    ensures
        r@ == label_of(
            match parsed {
                Some(s) => Some(s@),
                None => None,
            },
        ),
{
    match parsed {
        Some(s) => s,
        None => String::from_str(UNKNOWN_TIME),
    }
}

} // verus!
