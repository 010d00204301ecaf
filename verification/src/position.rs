//! Where playback stands between two readings of the player.
use crate::binary64::{held, hold, LIMIT};
use crate::clock::{passed_us, Clock};
use vstd::prelude::*;

verus! {

/// Interpolates the playback position between readings of the player.
///
/// Some players report a position that stays at the song's start, so the position is
/// predicted from an anchor while playing, and anchored anew when the report moves.
/// Positions are in microseconds.
#[derive(Clone, Copy, Debug)]
pub struct PosTracker {
    pub anchor_pos: i64,
    pub anchor_at: Option<u64>,
    pub last_reported: i64,
    pub frozen: bool,
    /// Until then a report that is far off is taken for stale: some players report the
    /// previous song's position when the song changes.
    pub grace_until: Option<u64>,
}

/// How far two positions are apart.
pub open spec fn apart(a: int, b: int) -> nat {
    if a >= b {
        (a - b) as nat
    } else {
        (b - a) as nat
    }
}

/// How far two positions are apart.
pub fn distance(a: i64, b: i64) -> (r: u64)
    ensures
        r == apart(a as int, b as int),
{
    let d: i128 = if a >= b {
        a as i128 - b as i128
    } else {
        b as i128 - a as i128
    };
    d as u64
}

/// The position `d` microseconds further on.
pub open spec fn onward(pos: int, d: int) -> i64 {
    held(pos + d) as i64
}

/// The position `d` microseconds further on.
pub fn forward(pos: i64, d: i64) -> (r: i64)
    ensures
        r == onward(pos as int, d as int),
{
    hold(pos as i128 + d as i128)
}

impl PosTracker {
    /// A tracker that knows nothing yet.
    pub open spec fn fresh() -> PosTracker {
        PosTracker {
            anchor_pos: 0,
            anchor_at: None,
            last_reported: 0,
            frozen: false,
            grace_until: None,
        }
    }

    /// The tracker anchored to a known position.
    pub open spec fn anchored(self, now: u64, pos: i64) -> PosTracker {
        PosTracker {
            anchor_pos: pos,
            anchor_at: Some(now),
            last_reported: pos,
            frozen: false,
            ..self
        }
    }

    /// The tracker without its anchor.
    pub open spec fn forgotten(self) -> PosTracker {
        PosTracker { anchor_at: None, frozen: false, grace_until: None, ..self }
    }

    /// The predicted position.
    pub open spec fn predicted(self, now: u64) -> i64 {
        match self.anchor_at {
            Some(at) => onward(self.anchor_pos as int, passed_us(now, at) as int),
            None => self.anchor_pos,
        }
    }

    /// Whether a report that is far off counts as stale.
    pub open spec fn in_grace(self, now: u64) -> bool {
        self.grace_until matches Some(g) && now < g
    }

    /// The tracker after a report of a playing player, from a tracker with an anchor:
    /// a frozen tracker waits until the report moves by over 150 ms; another one ignores a
    /// stale report, freezes where the report is within 50 ms of the prediction, and else
    /// follows the report.
    pub open spec fn followed(self, now: u64, reported: i64) -> PosTracker {
        let off = apart(reported as int, self.predicted(now) as int);
        let there = PosTracker {
            anchor_pos: reported,
            anchor_at: Some(now),
            last_reported: reported,
            ..self
        };
        let here = PosTracker { last_reported: reported, ..self };
        if self.frozen {
            if apart(reported as int, self.last_reported as int) > 150_000 {
                PosTracker { frozen: false, ..there }
            } else {
                here
            }
        } else if off > 700_000 {
            if self.in_grace(now) {
                here
            } else {
                there
            }
        } else if off < 50_000 {
            PosTracker { frozen: true, ..here }
        } else {
            there
        }
    }

    /// The tracker after a reading of the player.
    pub open spec fn fed(self, now: u64, reported: i64, playing: bool) -> PosTracker {
        if self.anchor_at is None || !playing {
            self.anchored(now, reported)
        } else {
            self.followed(now, reported)
        }
    }

    /// A tracker that knows nothing yet.
    pub fn new() -> (r: PosTracker)
        ensures
            r == PosTracker::fresh(),
    {
        PosTracker {
            anchor_pos: 0,
            anchor_at: None,
            last_reported: 0,
            frozen: false,
            grace_until: None,
        }
    }

    /// Forces the anchor to a known position, after a seek or at a song's start.
    pub fn anchor(&mut self, clock: &Clock, pos: i64)
        ensures
            *final(self) == old(self).anchored(clock.steady_ns, pos),
    {
        self.anchor_pos = pos;
        self.anchor_at = Some(clock.steady_ns);
        self.last_reported = pos;
        self.frozen = false;
    }

    /// Takes in a reading of the player and gives the position to go by.
    pub fn feed(&mut self, clock: &Clock, reported: i64, playing: bool) -> (r: i64)
        ensures
            *final(self) == old(self).fed(clock.steady_ns, reported, playing),
            r == read_position(*old(self), clock.steady_ns, reported, playing),
    {
        let at: u64 = match self.anchor_at {
            Some(at) => at,
            None => {
                self.anchor(clock, reported);
                return reported;
            },
        };
        if !playing {
            self.anchor(clock, reported);
            return reported;
        }
        if self.frozen {
            if distance(reported, self.last_reported) > 150_000 {
                self.frozen = false;
                self.anchor_pos = reported;
                self.anchor_at = Some(clock.steady_ns);
            }
        } else {
            let predicted: i64 = forward(self.anchor_pos, clock.since_us(at));
            let off: u64 = distance(reported, predicted);
            if off > 700_000 {
                let grace = match self.grace_until {
                    Some(g) => clock.steady_ns < g,
                    None => false,
                };
                if !grace {
                    self.anchor_pos = reported;
                    self.anchor_at = Some(clock.steady_ns);
                }
            } else if off < 50_000 {
                self.frozen = true;
            } else {
                self.anchor_pos = reported;
                self.anchor_at = Some(clock.steady_ns);
            }
        }
        self.last_reported = reported;
        match self.anchor_at {
            Some(a) => forward(self.anchor_pos, clock.since_us(a)),
            None => self.anchor_pos,
        }
    }

    /// Forgets the anchor.
    pub fn reset(&mut self)
        ensures
            *final(self) == old(self).forgotten(),
    {
        self.anchor_at = None;
        self.frozen = false;
        self.grace_until = None;
    }
}

/// The position that a reading of the player gives.
pub open spec fn read_position(p: PosTracker, now: u64, reported: i64, playing: bool) -> i64 {
    if p.anchor_at is None || !playing {
        reported
    } else {
        p.followed(now, reported).predicted(now)
    }
}

/// Where the player's report stands still, the position runs on from the anchor.
pub proof fn law_frozen_report_is_bridged(p: PosTracker, now: u64, reported: i64)
    requires
        p.anchor_at is Some,
        p.frozen,
        apart(reported as int, p.last_reported as int) <= 150_000,
    ensures
        read_position(p, now, reported, true) == p.predicted(now),
        p.fed(now, reported, true).frozen,
        p.fed(now, reported, true).predicted(now) == p.predicted(now),
{
}

/// Outside the time after a song change, and where the report has not been found to stand
/// still, the position to go by is within 50 ms of the report.
pub proof fn law_reading_is_near_the_report(p: PosTracker, now: u64, reported: i64, playing: bool)
    requires
        !p.frozen,
        !p.in_grace(now),
        -LIMIT <= reported <= LIMIT,
    ensures
        apart(read_position(p, now, reported, playing) as int, reported as int) < 50_000,
{
}

/// Right after a song change a report that is far off does not move the position.
pub proof fn law_stale_report_is_ignored(p: PosTracker, now: u64, reported: i64)
    requires
        p.anchor_at is Some,
        !p.frozen,
        p.in_grace(now),
        apart(reported as int, p.predicted(now) as int) > 700_000,
    ensures
        read_position(p, now, reported, true) == p.predicted(now),
{
}

/// Two positions are apart by what has to be added to the one to come to the other.
pub proof fn law_distance_is_the_gap(a: int, b: int)
    ensures
        a + apart(a, b) == b || b + apart(a, b) == a,
        apart(a, b) == apart(b, a),
        apart(a, b) == 0 <==> a == b,
{
}

/// A position moves by what it is moved by, up to the limit.
pub proof fn law_position_moves_on(pos: int, d: int)
    ensures
        -0x1000_0000_0000_0000 <= pos + d <= 0x1000_0000_0000_0000 ==> onward(pos, d) == pos + d,
        pos + d > 0x1000_0000_0000_0000 ==> onward(pos, d) == 0x1000_0000_0000_0000,
        pos + d < -0x1000_0000_0000_0000 ==> onward(pos, d) == -0x1000_0000_0000_0000,
{
}

/// A tracker without an anchor goes by the report, and so does one of a player that does not
/// play; either is anchored to it.
pub proof fn law_report_counts_where_nothing_runs(
    p: PosTracker,
    now: u64,
    reported: i64,
    playing: bool,
)
    requires
        p.anchor_at is None || !playing,
    ensures
        read_position(p, now, reported, playing) == reported,
        p.fed(now, reported, playing).anchor_at == Some(now),
        p.fed(now, reported, playing).anchor_pos == reported,
        p.fed(now, reported, playing).last_reported == reported,
        !p.fed(now, reported, playing).frozen,
        p.fed(now, reported, playing).grace_until == p.grace_until,
{
}

/// A tracker of a player that plays expects the song to run on from its anchor. It goes by what
/// it expects where the report is within 50 ms of that, which shows that the report stands still,
/// or where the report is off by over 700 ms right after a song change; else it goes by the
/// report, from which the song runs on.
pub proof fn law_running_song_is_tracked(p: PosTracker, at: u64, now: u64, reported: i64)
    requires
        p.anchor_at == Some(at),
        at <= now,
        !p.frozen,
        -0x400_0000_0000_0000 <= p.anchor_pos <= 0x400_0000_0000_0000,
        -0x400_0000_0000_0000 <= reported <= 0x400_0000_0000_0000,
    ensures
        ({
            let expected = p.anchor_pos + (now - at) / 1_000_000 * 1000;
            let off = if reported < expected {
                expected - reported
            } else {
                reported - expected
            };
            let grace = p.grace_until is Some && now < p.grace_until->0;
            let r = read_position(p, now, reported, true);
            let f = p.fed(now, reported, true);
            &&& p.predicted(now) == expected
            &&& f.last_reported == reported
            &&& f.grace_until == p.grace_until
            &&& f.frozen == (off < 50_000)
            &&& off < 50_000 || (off > 700_000 && grace) ==> {
                &&& r == expected
                &&& f.anchor_pos == p.anchor_pos
                &&& f.anchor_at == p.anchor_at
            }
            &&& (50_000 <= off <= 700_000) || (off > 700_000 && !grace) ==> {
                &&& r == reported
                &&& f.anchor_pos == reported
                &&& f.anchor_at == Some(now)
            }
        }),
{
}

/// A tracker whose report stood still goes by the report again once that has moved by over
/// 150 ms.
pub proof fn law_moving_report_is_followed_again(p: PosTracker, now: u64, reported: i64)
    requires
        p.anchor_at is Some,
        p.frozen,
        reported - p.last_reported > 150_000 || p.last_reported - reported > 150_000,
        -0x400_0000_0000_0000 <= reported <= 0x400_0000_0000_0000,
    ensures
        read_position(p, now, reported, true) == reported,
        !p.fed(now, reported, true).frozen,
        p.fed(now, reported, true).anchor_pos == reported,
        p.fed(now, reported, true).anchor_at == Some(now),
        p.fed(now, reported, true).last_reported == reported,
{
}

/// A tracker that forgets its anchor goes by the next report.
pub proof fn law_forgotten_anchor_does_not_count(p: PosTracker, now: u64, reported: i64, pos: i64)
    ensures
        read_position(p.forgotten(), now, reported, true) == reported,
        p.anchored(now, pos).anchor_pos == pos,
        p.anchored(now, pos).anchor_at == Some(now),
        !p.anchored(now, pos).frozen,
        p.anchored(now, pos).grace_until == p.grace_until,
        p.forgotten().grace_until is None,
        !p.forgotten().frozen,
{
}

} // verus!
