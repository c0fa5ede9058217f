//! Readings of the clock.

use vstd::prelude::*;

verus! {

/// Nanoseconds in a second.
pub const NANOS_PER_SEC: u32 = 1_000_000_000;

/// A reading of the clock: the time that has passed since the Unix epoch, in
/// whole seconds and additional nanoseconds.
///
/// The library never reads a clock. Its caller does, and hands the reading in.
#[derive(Debug, Clone, Copy, PartialEq, Eq)]
pub struct Timestamp {
    pub secs: u64,
    pub nanos: u32,
}

impl View for Timestamp {
    type V = int;

    /// The reading in nanoseconds since the Unix epoch.
    open spec fn view(&self) -> int {
        self.secs * NANOS_PER_SEC + self.nanos
    }
}

impl Timestamp {
    /// The reading `secs` seconds and `nanos` nanoseconds after the epoch.
    pub fn new(secs: u64, nanos: u32) -> (t: Timestamp)
        ensures
            t.secs == secs,
            t.nanos == nanos,
    {
        Timestamp { secs, nanos }
    }

    /// The reading in nanoseconds since the Unix epoch.
    pub fn as_nanos(&self) -> (n: i128)
        ensures
            n == self@,
            0 <= n < 0x2_0000_0000_0000_0000_0000_0000,
    {
        let secs: i128 = self.secs as i128;
        let nanos: i128 = self.nanos as i128;
        assert(0 <= self.secs * NANOS_PER_SEC + self.nanos < 0x2_0000_0000_0000_0000_0000_0000)
            by (nonlinear_arith)
            requires
                0 <= self.secs <= 0xffff_ffff_ffff_ffff,
                0 <= self.nanos <= 0xffff_ffff,
                NANOS_PER_SEC == 1_000_000_000,
        ;
        secs * 1_000_000_000i128 + nanos
    }
}

} // verus!
