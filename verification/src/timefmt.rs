//! Rendering random timestamps through chrono.

use vstd::prelude::*;

verus! {

/// The RFC 3339 rendering, in UTC, of the given whole-second Unix
/// timestamp. What the characters are exactly is chrono's business; the
/// name pins only that equal second counts render equally.
pub uninterp spec fn rfc3339_utc(secs: int) -> Seq<char>;

/// Relies on chrono's `DateTime::<Utc>::from_timestamp`, which returns
/// `Some` whenever the day number fits in 32 bits (every `i32` second count
/// does), and on `DateTime::to_rfc3339`, a pure rendering of the timestamp:
/// the result depends on the second count alone.
#[verifier::external_body]
pub(crate) fn timestamp_rfc3339(secs: i32) -> (r: String)
    ensures
        r@ == rfc3339_utc(secs as int),
{
    let date_time = chrono::DateTime::<chrono::Utc>::from_timestamp(secs as i64, 0).expect(
        "every 32-bit second count is in chrono's range",
    );
    date_time.to_rfc3339()
}

} // verus!
