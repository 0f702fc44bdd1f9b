//! The refresh timestamp: whole seconds since the Unix epoch, in decimal.

use vstd::prelude::*;
use crate::text::{decimal_string, decimal_text, decimal_value, lemma_decimal_round_trip};

verus! {

#[verifier::external_type_specification]
#[verifier::external_body]
pub struct ExSystemTime(std::time::SystemTime);

/// `std::time::SystemTime::now`: the current wall-clock time. Nothing is
/// claimed of the value.
#[verifier::external_body]
fn system_time_now() -> std::time::SystemTime {
    std::time::SystemTime::now()
}

/// `std::time::SystemTime::duration_since` with `UNIX_EPOCH`: the time elapsed
/// since the epoch, or `None` where the clock reads earlier than the epoch.
/// Nothing is claimed of which case occurs or of the duration.
#[verifier::external_body]
fn since_unix_epoch(t: &std::time::SystemTime) -> Option<core::time::Duration> {
    t.duration_since(std::time::UNIX_EPOCH).ok()
}

/// `core::time::Duration::as_secs`: the whole seconds of a duration. Nothing
/// is claimed of the value.
#[verifier::external_body]
fn whole_seconds(d: &core::time::Duration) -> u64 {
    d.as_secs()
}

/// The seconds since the Unix epoch when the clock could be read against it,
/// else 0.
pub open spec fn timestamp_seconds(secs: Option<u64>) -> nat {
    match secs {
        Some(s) => s as nat,
        None => 0,
    }
}

/// The timestamp text for the seconds since the epoch (`None` when the clock
/// reads earlier than the epoch, which gives `0`).
pub fn timestamp_text(secs: Option<u64>) -> (r: String)
    ensures
        r@ == decimal_text(timestamp_seconds(secs)),
{
    match secs {
        Some(s) => decimal_string(s),
        None => decimal_string(0),
    }
}

/// The current time as whole seconds since the Unix epoch, rendered in
/// decimal; `0` when the clock reads earlier than the epoch.
pub fn chrono_like_now() -> (r: String)
    ensures
        exists|secs: Option<u64>| r@ == decimal_text(timestamp_seconds(secs)),
{
    let now = system_time_now();
    let secs = match since_unix_epoch(&now) {
        Some(d) => Some(whole_seconds(&d)),
        None => None,
    };
    timestamp_text(secs)
}

/// Timestamp texts read back as their seconds, so a later clock reading never
/// gives a text that reads as a smaller number.
pub proof fn lemma_timestamp_order(earlier: Option<u64>, later: Option<u64>)
    ensures
        decimal_value(decimal_text(timestamp_seconds(earlier))) == timestamp_seconds(earlier),
        timestamp_seconds(earlier) <= timestamp_seconds(later) ==> decimal_value(
            decimal_text(timestamp_seconds(earlier)),
        ) <= decimal_value(decimal_text(timestamp_seconds(later))),
{
    lemma_decimal_round_trip(timestamp_seconds(earlier), timestamp_seconds(later));
}

} // verus!
