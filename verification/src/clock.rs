use vstd::prelude::*;

verus! {

/// Relies on std::time::SystemTime::now and duration_since: the wall clock,
/// in whole seconds since the Unix epoch. No path panics: a clock that
/// reads before the epoch comes back as zero, and a reading too large for
/// the result type saturates. Nothing is assumed of the value — the clock
/// may move arbitrarily between calls — so callers state what holds of
/// every possible reading.
#[verifier::external_body]
pub(crate) fn now_timestamp() -> i64 {
    match std::time::SystemTime::now().duration_since(std::time::UNIX_EPOCH) {
        Ok(d) => i64::try_from(d.as_secs()).unwrap_or(i64::MAX),
        Err(_) => 0,
    }
}

} // verus!
