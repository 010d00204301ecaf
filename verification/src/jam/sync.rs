//! Guest: following the host's playback.
use super::{
    Cont, ContView, CoreView, Drift, FollowView, JamCore, Local, LocalView, PendingSeek,
    PendingView, PlayerOp, PlayerOpView, SharedView, Target, TargetView,
};
use crate::clock::{later, passed, passed_us, stamp_of, MILLI, SECOND};
use crate::messages::{bare, play_uri, play_uri_json, typed};
use crate::player::{PlayerState, PlayerStateView};
use crate::position::{apart, distance, forward, onward, read_position};
use crate::text::{dec, decimal, is_empty, option_view, same};
use crate::track::{Track, TrackView};
use vstd::prelude::*;

verus! {

/// The whole milliseconds of a position, none for one before the start.
pub open spec fn whole_ms(us: int) -> nat {
    if us < 0 {
        0
    } else {
        us as nat / 1000
    }
}

/// The whole milliseconds of a position, in decimal.
pub(super) fn ms_text(us: i64) -> (r: String)
    ensures
        r@ == dec(whole_ms(us as int)),
{
    if us < 0 {
        decimal(0)
    } else {
        decimal(us as u64 / 1000)
    }
}

/// The smoothed drift after one more measurement: seven parts of the old and three of the new,
/// rounded up; the first measurement counts whole.
pub open spec fn smoothed(ema: nat, drift: nat) -> nat {
    if ema == 0 {
        drift
    } else {
        (7 * ema + 3 * drift + 9) / 10
    }
}

/// The smoothed drift after one more measurement.
fn smooth(ema: u64, drift: u64) -> (r: u64)
    ensures
        r == smoothed(ema as nat, drift as nat),
{
    if ema == 0 {
        drift
    } else {
        let n: u128 = 7 * (ema as u128) + 3 * (drift as u128) + 9;
        (n / 10) as u64
    }
}

/// The time since a timestamp in microseconds, from nothing to half a second.
pub open spec fn lag_us(now: int, ts: int) -> i64 {
    if now - ts <= 0 {
        0
    } else if now - ts >= 500 {
        500_000
    } else {
        ((now - ts) * 1000) as i64
    }
}

/// The time since a timestamp in microseconds, from nothing to half a second.
fn lag(now: i64, ts: i64) -> (r: i64)
    ensures
        r == lag_us(now as int, ts as int),
{
    let d: i128 = now as i128 - ts as i128;
    if d <= 0 {
        0
    } else if d >= 500 {
        500_000
    } else {
        d as i64 * 1000
    }
}

impl TargetView {
    /// Where the host is now.
    pub open spec fn position(self, now: u64) -> i64 {
        if self.playing {
            onward(self.pos_us as int, passed_us(now, self.at) as int)
        } else {
            self.pos_us
        }
    }

    /// Whether the target says which song it is.
    pub open spec fn known(self) -> bool {
        self.uri.len() > 0 || self.title.len() > 0
    }
}

/// Whether the player is on the song of a `PLAY`: by uri, or by title where one side has no
/// uri; a `PLAY` that has nothing to compare counts as in place.
pub open spec fn in_place(uri: Seq<char>, np: Option<TrackView>, s: PlayerStateView) -> bool {
    if s.uri.len() == 0 || uri.len() == 0 {
        match np {
            Some(t) => t.title.len() > 0 && s.title == t.title,
            None => true,
        }
    } else {
        s.uri == uri
    }
}

/// Whether the player is on the song of a `PLAY`.
fn is_in_place(uri: &str, np: &Option<Track>, s: &PlayerState) -> (r: bool)
    ensures
        r == in_place(uri@, option_view(*np), s@),
{
    if is_empty(s.uri.as_str()) || is_empty(uri) {
        match np {
            Some(t) => !is_empty(t.title.as_str()) && same(s.title.as_str(), t.title.as_str()),
            None => true,
        }
    } else {
        same(s.uri.as_str(), uri)
    }
}

/// The title of a song that may be missing.
pub open spec fn title_of(np: Option<TrackView>) -> Seq<char> {
    match np {
        Some(t) => t.title,
        None => Seq::empty(),
    }
}

/// The artist of a song that may be missing.
pub open spec fn artist_of(np: Option<TrackView>) -> Seq<char> {
    match np {
        Some(t) => t.artist,
        None => Seq::empty(),
    }
}

/// The title of a song that may be missing.
fn np_title(np: &Option<Track>) -> (r: String)
    ensures
        r@ == title_of(option_view(*np)),
{
    match np {
        Some(t) => t.title.clone(),
        None => String::new(),
    }
}

/// The artist of a song that may be missing.
fn np_artist(np: &Option<Track>) -> (r: String)
    ensures
        r@ == artist_of(option_view(*np)),
{
    match np {
        Some(t) => t.artist.clone(),
        None => String::new(),
    }
}

/// Whether the local song ended by itself before the present one: it was another one, within
/// 3.5 s of its end.
pub open spec fn ran_out(last: Option<LocalView>, key: Seq<char>) -> bool {
    last matches Some(l) && l.key != key && l.dur_us > 0 && l.dur_us - l.pos_us < 3_500_000
}

/// Whether the local song is within 3 s of its end.
pub open spec fn near_end(s: PlayerStateView) -> bool {
    s.duration_us > 0 && s.duration_us - s.position_us < 3_000_000
}

/// Whether the player is on the host's song: by uri, or by title where the player has no uri.
pub open spec fn on_target(t: TargetView, s: PlayerStateView) -> bool {
    if s.uri.len() == 0 && s.title.len() > 0 && t.title.len() > 0 {
        s.title == t.title
    } else {
        s.uri == t.uri
    }
}

impl CoreView {
    /// How far the host is ahead of a position that it sent at `ts`: half the ping, or, while the
    /// ping is not known, the time since then, up to half a second.
    pub open spec fn way_us(self, ts: i64) -> i64 {
        if self.link.ping_ms > 0 {
            self.comp_us()
        } else {
            lag_us(stamp_of(self.clock) as int, ts as int)
        }
    }

    /// With the progress shown that the host has made.
    pub open spec fn progressed(self) -> CoreView {
        match self.follow.target {
            Some(t) => CoreView {
                shared: SharedView { progress_us: t.position(self.now()), ..self.shared },
                ..self
            },
            None => self,
        }
    }

    /// Goes on with a tick where one is under way.
    pub open spec fn resumed_tick(self, progress: bool) -> CoreView {
        if progress {
            self.progressed()
        } else {
            self
        }
    }

    /// With a new target. A song without uri keeps the uri of the target before.
    pub open spec fn retargeted(
        self,
        uri: Seq<char>,
        pos: i64,
        paused: bool,
        np: Option<TrackView>,
    ) -> CoreView {
        let kept = if uri.len() > 0 {
            uri
        } else {
            match self.follow.target {
                Some(t) => t.uri,
                None => Seq::empty(),
            }
        };
        CoreView {
            follow: FollowView {
                target: Some(
                    TargetView {
                        uri: kept,
                        title: title_of(np),
                        artist: artist_of(np),
                        pos_us: pos,
                        at: self.now(),
                        playing: !paused,
                    },
                ),
                last_applied: Some(self.now()),
                ..self.follow
            },
            shared: SharedView {
                playing: !paused,
                progress_us: pos,
                now_playing: match np {
                    Some(t) => Some(t),
                    None => self.shared.now_playing,
                },
                ..self.shared
            },
            ..self
        }
    }

    /// With the host's song taken over, which was at `pos` at the time `ts`: the player is asked
    /// what it is doing, unless playback is left alone.
    #[verifier::opaque]
    pub open spec fn applied(
        self,
        uri: Seq<char>,
        pos: i64,
        ts: i64,
        paused: bool,
        np: Option<TrackView>,
        progress: bool,
    ) -> CoreView {
        let want = onward(pos as int, self.way_us(ts) as int);
        let c = self.retargeted(uri, pos, paused, np);
        if self.dry_run {
            c.logged(
                "[dry-run] PLAY "@ + uri + " @"@ + dec(whole_ms(want as int)) + "ms "@ + if paused {
                    "(paused)"@
                } else {
                    ""@
                },
            ).resumed_tick(progress)
        } else {
            c.asked(ContView::Align { uri, want_us: want, paused, np, progress })
        }
    }

    /// With the player brought to the host's song, after what it is doing is known.
    ///
    /// A player on another song opens the host's, where that has a uri, and a seek is kept for
    /// when it has been opened. One that is on the song already is paused, or sent to the
    /// position where it is off by more than a jump, and set playing.
    #[verifier::opaque]
    pub open spec fn aligned(
        self,
        uri: Seq<char>,
        want: i64,
        paused: bool,
        np: Option<TrackView>,
        st: Option<PlayerStateView>,
    ) -> CoreView {
        let c = CoreView { pos: self.pos.forgotten(), ..self };
        match st {
            Some(s) if in_place(uri, np, s) => c.nudged(s, want, paused),
            _ => if uri.len() == 0 {
                c
            } else {
                c.told(
                    PlayerOpView::Open { uri, title: title_of(np), artist: artist_of(np) },
                ).awaiting(
                    PendingView {
                        uri,
                        title: title_of(np),
                        target_us: onward(want as int, 350_000),
                        paused,
                        deadline: later(self.now(), (4500 * MILLI) as u64),
                        opened: false,
                    },
                )
            },
        }
    }

    /// With a seek to be made once the song has been opened.
    pub open spec fn awaiting(self, p: PendingView) -> CoreView {
        CoreView { follow: FollowView { pending: Some(p), ..self.follow }, ..self }
    }

    /// With the player, which is on the right song, brought to the right position.
    pub open spec fn nudged(self, s: PlayerStateView, want: i64, paused: bool) -> CoreView {
        let there = CoreView { pos: self.pos.anchored(self.now(), want), ..self };
        let jump: int = if self.drift.jump > 400_000 {
            self.drift.jump as int
        } else {
            400_000
        };
        if paused {
            there.told(PlayerOpView::Pause)
        } else if apart(s.position_us as int, want as int) > jump {
            there.told(PlayerOpView::Seek(want)).set_playing(s.playing)
        } else {
            self.set_playing(s.playing)
        }
    }

    /// With the player playing, where it is not.
    pub open spec fn set_playing(self, playing: bool) -> CoreView {
        if playing {
            self
        } else {
            self.told(PlayerOpView::Play)
        }
    }

    /// With the host's seek followed, which went to `pos` at the time `ts`.
    #[verifier::opaque]
    pub open spec fn sought(self, pos: i64, ts: i64) -> CoreView {
        let want = onward(pos as int, self.way_us(ts) as int);
        CoreView {
            follow: FollowView {
                target: match self.follow.target {
                    Some(t) => Some(TargetView { pos_us: pos, at: self.now(), ..t }),
                    None => None,
                },
                last_applied: Some(self.now()),
                ..self.follow
            },
            pos: self.pos.anchored(self.now(), want),
            ..self
        }.told(PlayerOpView::Seek(want)).logged("seek → "@ + dec(whole_ms(want as int)) + "ms"@)
    }

    /// Whether drift is to be measured: the host plays, playback is not left alone, and the
    /// player was not touched within two seconds.
    pub open spec fn drift_due(self) -> bool {
        &&& self.follow.target matches Some(t) && t.playing
        &&& !self.dry_run
        &&& self.follow.last_applied matches Some(at) ==> passed(self.now(), at) >= 2 * SECOND
    }

    /// With a position of the host's to measure drift by.
    #[verifier::opaque]
    pub open spec fn drift_asked(self, pos: i64, ts: i64) -> CoreView {
        if self.drift_due() {
            self.asked(ContView::Drift { pos_us: pos, ts })
        } else {
            self
        }
    }

    /// With the drift measured, after what the player is doing is known.
    #[verifier::opaque]
    pub open spec fn drift_measured(
        self,
        pos: i64,
        ts: i64,
        st: Option<PlayerStateView>,
    ) -> CoreView {
        match st {
            Some(s) if s.playing && s.known() => {
                let local = read_position(self.pos, self.now(), s.position_us, true);
                let want = onward(pos as int, self.way_us(ts) as int);
                CoreView {
                    pos: self.pos.fed(self.now(), s.position_us, true),
                    ..self
                }.drift_corrected(want, apart(local as int, want as int))
            },
            _ => self,
        }
    }

    /// With the drift corrected where it has to be: past the jump threshold at once, past the
    /// deadband the second time in a row.
    #[verifier::opaque]
    pub open spec fn drift_corrected(self, want: i64, drift: nat) -> CoreView {
        let ema = smoothed(self.drift.ema as nat, drift);
        let d = Drift { ema: ema as u64, ..self.drift };
        if !d.enabled {
            CoreView { drift: d, ..self }
        } else if ema < d.deadband {
            CoreView { drift: Drift { count: 0, ..d }, ..self }
        } else if ema < d.jump && d.count == 0 {
            CoreView { drift: Drift { count: 1, ..d }, ..self }
        } else {
            CoreView {
                drift: Drift { count: 0, ema: 0, ..d },
                follow: FollowView { last_applied: Some(self.now()), ..self.follow },
                ..self
            }.told(PlayerOpView::Seek(want)).logged(
                "drift "@ + dec(whole_ms(drift as int)) + "ms — corrected"@,
            )
        }
    }

    /// With the player held to the host's song, after what it is doing is known.
    ///
    /// A song that ended by itself makes the guest ask for the host's. A song that the guest
    /// picked is asked of the host, where guests may control playback, and the guest waits three
    /// seconds for it. Anything else is replaced by the host's song.
    #[verifier::opaque]
    pub open spec fn locked(self, st: Option<PlayerStateView>) -> CoreView {
        match (self.follow.target, st) {
            (Some(t), Some(s)) => {
                let key = s.key();
                let c = CoreView {
                    follow: FollowView {
                        last_local: Some(
                            LocalView { key, pos_us: s.position_us, dur_us: s.duration_us },
                        ),
                        ..self.follow
                    },
                    ..self
                };
                if on_target(t, s) {
                    CoreView {
                        follow: FollowView { join_baseline: None, ..c.follow },
                        ..c
                    }.progressed()
                } else if self.who.gc && (ran_out(self.follow.last_local, key) || near_end(s)) {
                    c.sent(typed("SYNC"@)).progressed()
                } else if self.picked(s) {
                    c.requested(s).progressed()
                } else if self.who.gc && self.awaits_host() || t.uri.len() == 0 {
                    c.progressed()
                } else {
                    c.snapped_back(t, s)
                }
            },
            _ => self.progressed(),
        }
    }

    /// Whether the local song is a pick of the guest's: guests may control playback, it is not
    /// the song from before joining, the session has settled, and it was not asked for already.
    pub open spec fn picked(self, s: PlayerStateView) -> bool {
        &&& self.who.gc
        &&& self.follow.join_baseline != Some(s.key())
        &&& !(self.follow.settle_until matches Some(u) && self.now() < u)
        &&& self.follow.playuri_sent != Some(s.uri)
    }

    /// Whether the host was asked for a song within three seconds.
    pub open spec fn awaits_host(self) -> bool {
        self.follow.playuri_sent_at matches Some(at) && passed(self.now(), at) < 3 * SECOND
    }

    /// With the host asked for the local song.
    #[verifier::opaque]
    pub open spec fn requested(self, s: PlayerStateView) -> CoreView {
        let c = self.sent(play_uri_json(s.uri));
        CoreView {
            follow: FollowView {
                playuri_sent: Some(s.uri),
                playuri_sent_at: Some(self.now()),
                ..c.follow
            },
            ..c
        }.logged("guest control: asked the host to play "@ + s.title)
    }

    /// With the local song replaced by the host's.
    #[verifier::opaque]
    pub open spec fn snapped_back(self, t: TargetView, s: PlayerStateView) -> CoreView {
        let was = if s.title.len() == 0 {
            s.uri
        } else {
            s.title
        };
        let np = if t.title.len() == 0 {
            None
        } else {
            Some(
                TrackView {
                    uri: t.uri,
                    title: t.title,
                    artist: t.artist,
                    art_url: Seq::empty(),
                },
            )
        };
        self.logged("🔒 locked to Jam (was "@ + was + ")"@).applied(
            t.uri,
            t.position(self.now()),
            stamp_of(self.clock),
            !t.playing,
            np,
            true,
        )
    }
}

impl JamCore {
    /// Shows the progress that the host has made.
    pub(super) fn progress(&mut self)
        ensures
            final(self)@ == old(self)@.progressed(),
    {
        let prog: Option<i64> = match &self.follow.target {
            Some(t) => Some(
                if t.playing {
                    forward(t.pos_us, self.clock.since_us(t.at))
                } else {
                    t.pos_us
                },
            ),
            None => None,
        };
        if let Some(p) = prog {
            self.shared.progress_us = p;
        }
    }

    /// Goes on with a tick where one is under way.
    pub(super) fn resume_tick(&mut self, progress: bool)
        ensures
            final(self)@ == old(self)@.resumed_tick(progress),
    {
        if progress {
            self.progress();
        }
    }

    /// Sets a new target.
    fn retarget(&mut self, uri: &str, pos: i64, paused: bool, np: &Option<Track>)
        ensures
            final(self)@ == old(self)@.retargeted(uri@, pos, paused, option_view(*np)),
    {
        let kept = if is_empty(uri) {
            match &self.follow.target {
                Some(t) => t.uri.clone(),
                None => String::new(),
            }
        } else {
            uri.to_owned()
        };
        self.follow.target = Some(
            Target {
                uri: kept,
                title: np_title(np),
                artist: np_artist(np),
                pos_us: pos,
                at: self.clock.steady_ns,
                playing: !paused,
            },
        );
        self.follow.last_applied = Some(self.clock.steady_ns);
        self.shared.playing = !paused;
        self.shared.progress_us = pos;
        if let Some(t) = np {
            self.shared.now_playing = Some(t.clone());
        }
    }

    /// How far the host is ahead of a position that it sent at `ts`.
    fn way(&self, ts: i64) -> (r: i64)
        ensures
            r == self@.way_us(ts),
    {
        if self.link.ping_ms > 0 {
            self.comp_us()
        } else {
            lag(self.clock.now_ms(), ts)
        }
    }

    /// Takes over the host's song, which was at `pos` at the time `ts`.
    pub(super) fn apply_playback(
        &mut self,
        uri: &str,
        pos: i64,
        ts: i64,
        paused: bool,
        np: Option<Track>,
        progress: bool,
    )
        ensures
            final(self)@ == old(self)@.applied(uri@, pos, ts, paused, option_view(np), progress),
    {
        proof {
            reveal(CoreView::applied);
        }
        let want: i64 = forward(pos, self.way(ts));
        self.retarget(uri, pos, paused, &np);
        if self.dry_run {
            let mut m = "[dry-run] PLAY ".to_owned();
            m.append(uri);
            m.append(" @");
            m.append(ms_text(want).as_str());
            m.append("ms ");
            m.append(if paused { "(paused)" } else { "" });
            self.log(m.as_str());
            self.resume_tick(progress);
            return;
        }
        self.ask(Cont::Align { uri: uri.to_owned(), want_us: want, paused, np, progress });
    }

    /// Brings the player to the host's song.
    pub(super) fn align(
        &mut self,
        uri: &str,
        want: i64,
        paused: bool,
        np: Option<Track>,
        st: Option<PlayerState>,
    )
        ensures
            final(self)@ == old(self)@.aligned(
                uri@,
                want,
                paused,
                option_view(np),
                option_view(st),
            ),
    {
        proof {
            reveal(CoreView::aligned);
        }
        self.pos.reset();
        if let Some(s) = st {
            if is_in_place(uri, &np, &s) {
                self.nudge(&s, want, paused);
                return;
            }
        }
        if is_empty(uri) {
            return;
        }
        let title = np_title(&np);
        self.tell(
            PlayerOp::Open { uri: uri.to_owned(), title: title.clone(), artist: np_artist(&np) },
        );
        self.follow.pending = Some(
            PendingSeek {
                uri: uri.to_owned(),
                title,
                target_us: forward(want, 350_000),
                paused,
                deadline: self.clock.after(4500 * MILLI),
                opened: false,
            },
        );
    }

    /// Brings a player that is on the right song to the right position.
    fn nudge(&mut self, s: &PlayerState, want: i64, paused: bool)
        ensures
            final(self)@ == old(self)@.nudged(s@, want, paused),
    {
        let clock = self.clock;
        let jump: u64 = if self.drift.jump > 400_000 {
            self.drift.jump
        } else {
            400_000
        };
        if paused {
            self.pos.anchor(&clock, want);
            self.tell(PlayerOp::Pause);
        } else {
            if distance(s.position_us, want) > jump {
                self.pos.anchor(&clock, want);
                self.tell(PlayerOp::Seek(want));
            }
            if !s.playing {
                self.tell(PlayerOp::Play);
            }
        }
    }

    /// Follows the host's seek.
    pub(super) fn seek(&mut self, pos: i64, ts: i64)
        ensures
            final(self)@ == old(self)@.sought(pos, ts),
    {
        proof {
            reveal(CoreView::sought);
        }
        let want: i64 = forward(pos, self.way(ts));
        let clock = self.clock;
        let mut target: Option<Target> = None;
        std::mem::swap(&mut target, &mut self.follow.target);
        if let Some(mut t) = target {
            t.pos_us = pos;
            t.at = clock.steady_ns;
            self.follow.target = Some(t);
        }
        self.follow.last_applied = Some(clock.steady_ns);
        self.pos.anchor(&clock, want);
        self.tell(PlayerOp::Seek(want));
        let mut m = "seek → ".to_owned();
        m.append(ms_text(want).as_str());
        m.append("ms");
        self.log(m.as_str());
    }

    /// Takes a position of the host's to measure drift by.
    pub(super) fn drift_correct(&mut self, pos: i64, ts: i64)
        ensures
            final(self)@ == old(self)@.drift_asked(pos, ts),
    {
        proof {
            reveal(CoreView::drift_asked);
        }
        let playing = match &self.follow.target {
            Some(t) => t.playing,
            None => false,
        };
        if !playing || self.dry_run {
            return;
        }
        if let Some(at) = self.follow.last_applied {
            if self.clock.since(at) < 2 * SECOND {
                return;
            }
        }
        self.ask(Cont::Drift { pos_us: pos, ts });
    }

    /// Measures the drift.
    pub(super) fn measure_drift(&mut self, pos: i64, ts: i64, st: Option<PlayerState>)
        ensures
            final(self)@ == old(self)@.drift_measured(pos, ts, option_view(st)),
    {
        proof {
            reveal(CoreView::drift_measured);
        }
        let s = match st {
            Some(s) => s,
            None => return,
        };
        if !s.playing || !s.known() {
            return;
        }
        let clock = self.clock;
        let local: i64 = self.pos.feed(&clock, s.position_us, true);
        let want: i64 = forward(pos, self.way(ts));
        let drift: u64 = distance(local, want);
        self.correct_drift(want, drift);
    }

    /// Corrects the drift where it has to be.
    fn correct_drift(&mut self, want: i64, drift: u64)
        ensures
            final(self)@ == old(self)@.drift_corrected(want, drift as nat),
    {
        proof {
            reveal(CoreView::drift_corrected);
        }
        self.drift.ema = smooth(self.drift.ema, drift);
        if !self.drift.enabled {
            return;
        }
        if self.drift.ema < self.drift.deadband {
            self.drift.count = 0;
            return;
        }
        if self.drift.ema < self.drift.jump && self.drift.count == 0 {
            self.drift.count = 1;
            return;
        }
        self.drift.count = 0;
        self.drift.ema = 0;
        self.follow.last_applied = Some(self.clock.steady_ns);
        self.tell(PlayerOp::Seek(want));
        let mut m = "drift ".to_owned();
        m.append(decimal(drift / 1000).as_str());
        m.append("ms — corrected");
        self.log(m.as_str());
    }

    /// Holds the player to the host's song.
    pub(super) fn enforce_lock(&mut self, st: Option<PlayerState>)
        ensures
            final(self)@ == old(self)@.locked(option_view(st)),
    {
        proof {
            reveal(CoreView::locked);
        }
        let t = match &self.follow.target {
            Some(t) => t.clone(),
            None => {
                self.progress();
                return;
            },
        };
        let s = match st {
            Some(s) => s,
            None => {
                self.progress();
                return;
            },
        };
        let key = s.key();
        let advanced = match &self.follow.last_local {
            Some(l) => !same(l.key.as_str(), key.as_str()) && l.dur_us > 0 && (l.dur_us as i128
                - l.pos_us as i128) < 3_500_000,
            None => false,
        };
        let ending = s.duration_us > 0 && (s.duration_us as i128 - s.position_us as i128)
            < 3_000_000;
        let picked = self.is_pick(&s, key.as_str());
        self.follow.last_local = Some(
            Local { key, pos_us: s.position_us, dur_us: s.duration_us },
        );
        let on_target = if is_empty(s.uri.as_str()) && !is_empty(s.title.as_str()) && !is_empty(
            t.title.as_str(),
        ) {
            same(s.title.as_str(), t.title.as_str())
        } else {
            same(s.uri.as_str(), t.uri.as_str())
        };
        if on_target {
            self.follow.join_baseline = None;
            self.progress();
        } else if self.who.gc && (advanced || ending) {
            self.send(bare("SYNC"));
            self.progress();
        } else if picked {
            self.request(&s);
            self.progress();
        } else if self.who.gc && self.waits_for_host() || is_empty(t.uri.as_str()) {
            self.progress();
        } else {
            self.snap_back(&t, &s);
        }
    }

    /// Whether the local song is a pick of the guest's.
    fn is_pick(&self, s: &PlayerState, key: &str) -> (r: bool)
        requires
            key@ == s@.key(),
        ensures
            r == self@.picked(s@),
    {
        let pre_join = match &self.follow.join_baseline {
            Some(b) => same(b.as_str(), key),
            None => false,
        };
        let settling = match self.follow.settle_until {
            Some(u) => self.clock.steady_ns < u,
            None => false,
        };
        let asked = match &self.follow.playuri_sent {
            Some(u) => same(u.as_str(), s.uri.as_str()),
            None => false,
        };
        self.who.gc && !pre_join && !settling && !asked
    }

    /// Whether the host was asked for a song within three seconds.
    fn waits_for_host(&self) -> (r: bool)
        ensures
            r == self@.awaits_host(),
    {
        match self.follow.playuri_sent_at {
            Some(at) => self.clock.since(at) < 3 * SECOND,
            None => false,
        }
    }

    /// Asks the host for the local song.
    fn request(&mut self, s: &PlayerState)
        ensures
            final(self)@ == old(self)@.requested(s@),
    {
        proof {
            reveal(CoreView::requested);
        }
        self.send(play_uri(s.uri.as_str()));
        self.follow.playuri_sent = Some(s.uri.clone());
        self.follow.playuri_sent_at = Some(self.clock.steady_ns);
        let mut m = "guest control: asked the host to play ".to_owned();
        m.append(s.title.as_str());
        self.log(m.as_str());
    }

    /// Replaces the local song by the host's.
    fn snap_back(&mut self, t: &Target, s: &PlayerState)
        ensures
            final(self)@ == old(self)@.snapped_back(t@, s@),
    {
        proof {
            reveal(CoreView::snapped_back);
        }
        let mut m = "🔒 locked to Jam (was ".to_owned();
        if is_empty(s.title.as_str()) {
            m.append(s.uri.as_str());
        } else {
            m.append(s.title.as_str());
        }
        m.append(")");
        self.log(m.as_str());
        let pos: i64 = if t.playing {
            forward(t.pos_us, self.clock.since_us(t.at))
        } else {
            t.pos_us
        };
        let np = if is_empty(t.title.as_str()) {
            None
        } else {
            Some(
                Track {
                    uri: t.uri.clone(),
                    title: t.title.clone(),
                    artist: t.artist.clone(),
                    art_url: String::new(),
                },
            )
        };
        let ts: i64 = self.clock.now_ms();
        self.apply_playback(t.uri.as_str(), pos, ts, !t.playing, np, true);
    }
}

} // verus!
