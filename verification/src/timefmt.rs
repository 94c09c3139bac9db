//! Rendering timestamps as RFC 3339 text, through chrono.

use vstd::prelude::*;

verus! {

pub uninterp spec fn rfc3339_of(ms: int) -> Seq<char>;

/// Relies on chrono's DateTime::from_timestamp_millis and to_rfc3339: for
/// a timestamp within the calendar's range the rendering depends on the
/// value alone.
#[verifier::external_body]
pub fn format_rfc3339_ms(ms: i64) -> (r: String)
    requires
        0 <= ms <= 253402300799999,
    ensures
        r@ == rfc3339_of(ms as int),
{
    match chrono::DateTime::from_timestamp_millis(ms) {
        Some(t) => t.to_rfc3339(),
        None => String::new(),
    }
}

/// Whether the timestamp lies in the range the renderer accepts: from the
/// epoch through the last millisecond of year 9999.
pub open spec fn renderable_ms(ms: i64) -> bool {
    0 <= ms <= 253402300799999
}

} // verus!
