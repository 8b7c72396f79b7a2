//! The RP1 free-running 64-bit raw timer, one tick per microsecond.
//!
//! Reading the counter is the caller's: it reads the high word, the low word
//! and the high word again, and keeps the value once both high reads agree.

use vstd::prelude::*;

verus! {

pub struct RawTimer {
    pub private: (),
}

/// The 64-bit count from its two halves.
pub open spec fn combined(high: u32, low: u32) -> u64 {
    ((high as u64) * 0x1_0000_0000 + low as u64) as u64
}

pub fn combine(high: u32, low: u32) -> (r: u64)
    ensures
        r == combined(high, low),
{
    let r = ((high as u64) << 32u64) | (low as u64);
    assert(((high as u64) << 32u64) | (low as u64) == ((high as u64) * 0x1_0000_0000 + low as u64) as u64)
        by (bit_vector);
    r
}

/// Microseconds from `start` to `end`, modulo 2^64 like the counter.
pub fn elapsed_us(start: u64, end: u64) -> (r: u64)
    ensures
        r == end.wrapping_sub(start),
        r == (end - start) % 0x1_0000_0000_0000_0000,
{
    end.wrapping_sub(start)
}

/// The counter value of one read sequence: `Some` only when both high reads
/// agree.
pub fn stable_reading(high_before: u32, low: u32, high_after: u32) -> (r: Option<u64>)
    ensures
        r == (if high_before == high_after {
            Some(combined(high_before, low))
        } else {
            None
        }),
{
    if high_before == high_after {
        Some(combine(high_before, low))
    } else {
        None
    }
}

impl RawTimer {
    /// Microseconds elapsed between `start` and the current reading `now`.
    pub fn elapsed_since(&self, start: u64, now: u64) -> (r: u64)
        ensures
            r == now.wrapping_sub(start),
    {
        elapsed_us(start, now)
    }

    /// Whether a delay of `delay_us` that began at `start` is still running
    /// at the reading `now`.
    pub fn delay_pending(&self, start: u64, now: u64, delay_us: u64) -> (r: bool)
        ensures
            r == (now.wrapping_sub(start) < delay_us),
    {
        self.elapsed_since(start, now) < delay_us
    }
}

} // verus!
