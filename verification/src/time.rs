//! Wall-clock timestamps and deltas, as used by handshakes and stream
//! statistics.

use vstd::prelude::*;

verus! {

/// Relies on std::time::SystemTime::now and duration_since for the current
/// Unix time in milliseconds; nothing can be promised of the clock's value.
#[verifier::external_body]
pub fn current_timestamp() -> u32 {
    std::time::SystemTime::now()
        .duration_since(std::time::UNIX_EPOCH)
        .map(|d| d.as_millis() as u32)
        .unwrap_or(0)
}

/// Relies on std::time::SystemTime::now and duration_since for the current
/// Unix time in seconds; nothing can be promised of the clock's value.
#[verifier::external_body]
pub fn current_timestamp_secs() -> u32 {
    std::time::SystemTime::now()
        .duration_since(std::time::UNIX_EPOCH)
        .map(|d| d.as_secs() as u32)
        .unwrap_or(0)
}

/// The signed 32-bit reading of the wrapped difference between two
/// millisecond timestamps: the value d in [-2^31, 2^31) with
/// d == end - start (mod 2^32).
pub open spec fn signed_delta(start: u32, end: u32) -> int {
    let d = (end - start) % 0x100000000;
    if d >= 0x80000000 {
        d - 0x100000000
    } else {
        d
    }
}

/// The signed difference between two millisecond timestamps, read through
/// the 32-bit wraparound: a clock that wrapped still gives a small delta.
pub fn time_delta_ms(start: u32, end: u32) -> (r: i32)
    ensures
        r == signed_delta(start, end),
{
    let d: u32 = end.wrapping_sub(start);
    proof {
        assert(d == (end - start) % 0x100000000);
    }
    if d >= 0x80000000 {
        let wide: i64 = d as i64;
        (wide - 0x100000000) as i32
    } else {
        d as i32
    }
}

} // verus!
