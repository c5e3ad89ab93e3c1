use vstd::prelude::*;

verus! {

/// Reads the system clock: `chrono::Utc::now().timestamp_millis()`, the
/// milliseconds since the Unix epoch. The reading depends on the moment of the
/// call, so the contract promises nothing of it.
#[verifier::external_body]
pub(crate) fn now_millis() -> i64 {
    chrono::Utc::now().timestamp_millis()
}

/// Reads the system clock once: `chrono::Utc::now()`, as its whole seconds
/// since the Unix epoch (`timestamp`) and the nanoseconds past them
/// (`timestamp_subsec_nanos`). The reading depends on the moment of the call,
/// so the contract promises nothing of it.
#[verifier::external_body]
fn now_parts() -> (i64, u32) {
    let now = chrono::Utc::now();
    (now.timestamp(), now.timestamp_subsec_nanos())
}

/// The time, in nanoseconds since the Unix epoch: the seconds of one clock
/// reading times a billion, plus its nanoseconds. Whatever the clock reads,
/// the value lies between the extremes that an `i64` of seconds and a `u32`
/// of nanoseconds give.
pub fn now_nanos() -> (r: i128)
    ensures
        i64::MIN * 1_000_000_000 <= r <= i64::MAX * 1_000_000_000 + u32::MAX,
{
    let (secs, nanos) = now_parts();
    (secs as i128) * 1_000_000_000 + (nanos as i128)
}

/// Reads the system clock: `chrono::Utc::now().timestamp()`, the seconds since
/// the Unix epoch. Nothing is promised of the reading.
#[verifier::external_body]
pub(crate) fn now_seconds() -> i64 {
    chrono::Utc::now().timestamp()
}

/// A fresh random identifier: `uuid::Uuid::new_v4().to_string()`. The
/// hyphenated form that `Display` writes has 36 characters; the value itself
/// is random, so nothing else is promised.
#[verifier::external_body]
pub(crate) fn new_id() -> (s: String)
    ensures
        s@.len() == 36,
{
    uuid::Uuid::new_v4().to_string()
}

} // verus!
