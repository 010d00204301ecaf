//! Time as the session sees it.
//!
//! A `Clock` is one reading of the machine's clocks. Moments are nanoseconds of the steady
//! clock; message timestamps are milliseconds since the Unix epoch.
use crate::text::{two, two_digits};
use vstd::prelude::*;

verus! {

/// Nanoseconds in a millisecond.
pub const MILLI: u64 = 1_000_000;

/// Nanoseconds in a second.
pub const SECOND: u64 = 1_000_000_000;

/// One reading of the clocks.
#[derive(Clone, Copy, Debug)]
pub struct Clock {
    /// The steady clock, in nanoseconds.
    pub steady_ns: u64,
    /// The wall clock, in milliseconds since the Unix epoch; `None` before it.
    pub epoch_ms: Option<u64>,
}

/// How long ago `at` was; nothing for a moment that is still to come.
pub open spec fn passed(now: u64, at: u64) -> nat {
    if now >= at {
        (now - at) as nat
    } else {
        0
    }
}

/// The moment `d` nanoseconds later, at the latest the end of time.
pub open spec fn later(now: u64, d: u64) -> u64 {
    if now + d <= u64::MAX {
        (now + d) as u64
    } else {
        u64::MAX
    }
}

/// The whole milliseconds since `at`, in microseconds.
pub open spec fn passed_us(now: u64, at: u64) -> nat {
    passed(now, at) / MILLI as nat * 1000
}

/// The timestamp of a message that is sent now.
pub open spec fn stamp_of(c: Clock) -> i64 {
    match c.epoch_ms {
        Some(ms) => if ms <= i64::MAX {
            ms as i64
        } else {
            i64::MAX
        },
        None => 0,
    }
}

/// The time of day, `HH:MM:SS`; nothing where the wall clock shows none.
pub open spec fn time_of_day(c: Clock) -> Seq<char> {
    match c.epoch_ms {
        Some(ms) => {
            let secs = ms as nat / 1000 % 86400;
            two(secs / 3600) + seq![':'] + two(secs % 3600 / 60) + seq![':'] + two(secs % 60)
        },
        None => Seq::empty(),
    }
}

impl Clock {
    /// How long ago `at` was.
    pub fn since(&self, at: u64) -> (r: u64)
        ensures
            r == passed(self.steady_ns, at),
    {
        self.steady_ns.saturating_sub(at)
    }

    /// The moment `d` nanoseconds from now.
    pub fn after(&self, d: u64) -> (r: u64)
        ensures
            r == later(self.steady_ns, d),
    {
        self.steady_ns.saturating_add(d)
    }

    /// The whole milliseconds since `at`, in microseconds.
    pub fn since_us(&self, at: u64) -> (r: i64)
        ensures
            r == passed_us(self.steady_ns, at),
    {
        (self.since(at) / MILLI * 1000) as i64
    }

    /// The timestamp of a message that is sent now.
    pub fn now_ms(&self) -> (r: i64)
        ensures
            r == stamp_of(*self),
    {
        match self.epoch_ms {
            Some(ms) => if ms <= 0x7fff_ffff_ffff_ffff {
                ms as i64
            } else {
                i64::MAX
            },
            None => 0,
        }
    }

    /// The time of day.
    pub fn time(&self) -> (r: String)
        ensures
            r@ == time_of_day(*self),
    {
        match self.epoch_ms {
            Some(ms) => {
                let secs: u64 = ms / 1000 % 86400;
                let mut s = two_digits(secs / 3600);
                s.push(':');
                s.append(two_digits(secs % 3600 / 60).as_str());
                s.push(':');
                s.append(two_digits(secs % 60).as_str());
                assert(s@ =~= time_of_day(*self));
                s
            },
            None => String::new(),
        }
    }
}

/// Time passes at its pace: what is later by some time was that time ago, unless time has ended.
pub proof fn law_time_passes(now: u64, d: u64)
    ensures
        now + d <= u64::MAX ==> later(now, d) == now + d && passed(later(now, d), now) == d,
        now + d > u64::MAX ==> later(now, d) == u64::MAX,
        passed(now, later(now, d)) == 0,
{
}

/// The time that has passed is counted in whole milliseconds, none of which is missed.
pub proof fn law_milliseconds_are_whole(now: u64, at: u64)
    ensures
        passed_us(now, at) % 1000 == 0,
        at <= now ==> passed_us(now, at) * 1000 <= now - at < passed_us(now, at) * 1000 + 1_000_000,
        at > now ==> passed_us(now, at) == 0,
{
    let ns = passed(now, at);
    assert(ns / 1_000_000nat * 1000 * 1000 <= ns < ns / 1_000_000nat * 1000 * 1000 + 1_000_000);
}

/// A message's timestamp is the wall clock.
pub proof fn law_stamp_is_the_wall_clock(c: Clock, ms: u64)
    requires
        c.epoch_ms == Some(ms),
        ms <= i64::MAX,
    ensures
        stamp_of(c) == ms,
{
}

/// The time of day is the hours, minutes and seconds of the day, whatever the day.
pub proof fn law_time_of_day_is_that_of_the_day(c: Clock, day: nat, h: nat, m: nat, s: nat, ms: nat)
    requires
        h < 24,
        m < 60,
        s < 60,
        ms < 1000,
        c.epoch_ms is Some,
        c.epoch_ms->0 == (((day * 24 + h) * 60 + m) * 60 + s) * 1000 + ms,
    ensures
        time_of_day(c) == two(h) + seq![':'] + two(m) + seq![':'] + two(s),
{
    let all = ((day * 24 + h) * 60 + m) * 60 + s;
    assert(c.epoch_ms->0 as nat / 1000 == all);
    let secs = all % 86400;
    assert(all == day * 86400 + (h * 3600 + m * 60 + s));
    assert(secs == h * 3600 + m * 60 + s);
    assert(secs / 3600 == h);
    assert(secs % 3600 == m * 60 + s);
}

} // verus!
