use vstd::prelude::*;

verus! {

/// Where a session's "now" comes from. It is resolved at most once per
/// compilation cycle, so every datetime query within one cycle sees the same
/// instant.
#[derive(Debug, Clone, Copy)]
pub enum Now {
    /// A fixed timestamp in seconds since the epoch, set once at session
    /// construction. Used for reproducible builds.
    Fixed(i64),
    /// The wall clock, captured on first use within a cycle and cleared again
    /// by the cycle reset.
    System(Option<i64>),
}

/// The clock after a cycle reset: a fixed timestamp stays, a captured
/// wall-clock instant is cleared.
pub open spec fn spec_reset_clock(c: Now) -> Now {
    match c {
        Now::Fixed(t) => Now::Fixed(t),
        Now::System(_) => Now::System(None),
    }
}

/// Relies on chrono's conversion from the system clock: the wall clock, as
/// whole seconds since the epoch. Nothing is promised of its value; callers
/// state what holds of every instant. The conversion from `SystemTime` is
/// taken rather than `Utc::now` because it also handles a system clock set
/// before the epoch without panicking.
#[verifier::external_body]
pub(crate) fn now_timestamp() -> i64 {
    chrono::DateTime::<chrono::Utc>::from(std::time::SystemTime::now()).timestamp()
}

/// Relies on `chrono::offset::Local`: the machine's time zone offset from
/// UTC, in seconds, at the given instant. chrono represents offsets as
/// `FixedOffset`, which keeps them strictly between -86400 and 86400; for an
/// instant chrono cannot represent, the offset falls back to zero.
#[verifier::external_body]
pub(crate) fn local_offset_seconds(ts: i64) -> (r: i32)
    ensures
        -86400 < r < 86400,
{
    match chrono::DateTime::<chrono::Utc>::from_timestamp(ts, 0) {
        Some(t) => t.with_timezone(&chrono::Local).offset().local_minus_utc(),
        None => 0,
    }
}

} // verus!
