use vstd::prelude::*;

verus! {

/// What parsing `s` as an RFC 3339 timestamp gives: the instant in
/// microseconds since the Unix epoch, or the text of the parser's error.
pub uninterp spec fn rfc3339_outcome(s: Seq<char>) -> Result<i64, Seq<char>>;

/// Relies on `chrono::DateTime::parse_from_rfc3339`, which accepts exactly the
/// RFC 3339 timestamps, on `DateTime::timestamp_micros`, which gives the
/// instant in microseconds since the Unix epoch (UTC) whatever the offset,
/// and on the `Display` of `chrono::ParseError` for the error's text.
#[verifier::external_body]
pub(crate) fn parse_rfc3339(s: &str) -> (r: Result<i64, String>)
    ensures
        match r {
            Ok(t) => rfc3339_outcome(s@) == Ok::<i64, Seq<char>>(t),
            Err(e) => rfc3339_outcome(s@) == Err::<i64, Seq<char>>(e@),
        },
{
    match chrono::DateTime::parse_from_rfc3339(s) {
        Ok(d) => Ok(d.timestamp_micros()),
        Err(e) => Err(e.to_string()),
    }
}

} // verus!
