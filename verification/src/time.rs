//! Moments of the wall clock, and how long ago they were.

use vstd::prelude::*;
use crate::text::{decimal, decimal_string};

verus! {

/// A moment: seconds since the epoch, and nanoseconds on top.
#[derive(Clone, Copy, Debug, PartialEq, Eq, Structural)]
pub struct Moment {
    pub secs: i64,
    pub nanos: u32,
}

/// Nanoseconds in a second.
pub const NANOS_PER_SEC: i128 = 1_000_000_000;

/// Seconds in the day within which an agent counts as recently opened.
pub const RECENT_WINDOW_SECS: i128 = 86_400;

impl Moment {
    /// Nanoseconds since the epoch.
    pub open spec fn at(self) -> int {
        self.secs * 1_000_000_000 + self.nanos
    }

    /// Nanoseconds since the epoch.
    pub fn total(self) -> (n: i128)
        ensures
            n == self.at(),
            -0x8000_0000_0000_0000_0000_0000_0000 <= n <= 0x8000_0000_0000_0000_0000_0000_0000,
    {
        self.secs as i128 * NANOS_PER_SEC + self.nanos as i128
    }

    /// Whether the moment comes after `other`.
    pub fn after(self, other: Moment) -> (b: bool)
        ensures
            b == (self.at() > other.at()),
    {
        self.total() > other.total()
    }
}

/// Whether `ts` lies less than the recent window before `now`.
pub open spec fn is_recent(now: Moment, ts: Moment) -> bool {
    now.at() - ts.at() < 86_400 * 1_000_000_000
}

/// Whether `ts` lies less than the recent window before `now`.
pub fn recently(now: Moment, ts: Moment) -> (b: bool)
    ensures
        b == is_recent(now, ts),
{
    now.total() - ts.total() < RECENT_WINDOW_SECS * NANOS_PER_SEC
}

/// Whole seconds from `ts` to `now`: none where `ts` is yet to come.
pub open spec fn elapsed_secs(now: Moment, ts: Moment) -> nat {
    if now.at() < ts.at() {
        0
    } else {
        ((now.at() - ts.at()) / 1_000_000_000) as nat
    }
}

/// Time since a moment, in the largest unit that it fills: seconds, minutes, hours or days.
pub open spec fn age_text(now: Moment, ts: Moment) -> Seq<char> {
    let secs = elapsed_secs(now, ts);
    if secs < 60 {
        decimal(secs).push('s')
    } else if secs < 3600 {
        decimal(secs / 60).push('m')
    } else if secs < 86_400 {
        decimal(secs / 3600).push('h')
    } else {
        decimal(secs / 86_400).push('d')
    }
}

/// Compact time since `ts`: 45s, 12m, 3h, 2d.
pub fn age_short(now: Moment, ts: Moment) -> (out: String)
    ensures
        out@ == age_text(now, ts),
{
    let diff: i128 = now.total() - ts.total();
    let secs: u128 = if diff < 0 {
        0
    } else {
        (diff / NANOS_PER_SEC) as u128
    };
    assert(secs == elapsed_secs(now, ts));
    assert(secs <= 0x1_0000_0000_0000_0010) by (nonlinear_arith)
        requires
            secs == elapsed_secs(now, ts),
            now.at() == now.secs * 1_000_000_000 + now.nanos,
            ts.at() == ts.secs * 1_000_000_000 + ts.nanos,
            now.secs <= 0x7fff_ffff_ffff_ffff,
            ts.secs >= -0x8000_0000_0000_0000,
            now.nanos <= 0xffff_ffff,
            ts.nanos >= 0,
    ;
    if secs < 60 {
        let mut out = decimal_string(secs as u64);
        out.push('s');
        out
    } else if secs < 3600 {
        let mut out = decimal_string((secs / 60) as u64);
        out.push('m');
        out
    } else if secs < 86_400 {
        let mut out = decimal_string((secs / 3600) as u64);
        out.push('h');
        out
    } else {
        let mut out = decimal_string((secs / 86_400) as u64);
        out.push('d');
        out
    }
}

} // verus!
