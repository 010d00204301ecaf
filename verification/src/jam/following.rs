//! How a guest follows its host.
use super::delivery::{
    lemma_kind_cmd, lemma_kind_gctrl, lemma_kind_init, lemma_kind_members, lemma_kind_pause,
    lemma_kind_ping, lemma_kind_play, lemma_kind_pong, lemma_kind_ps, lemma_kind_q,
    lemma_kind_seek, lemma_kind_sync_tick,
};
use super::keeping::{lemma_messages_push, lemma_ops_push, messages, player_ops};
use super::resume::{AnswerView, QuestionView};
use super::sync::smoothed;
use super::{
    ActionView, ContView, CoreView, Drift, DrawnView, FollowView, Link, LocalView, Mode,
    PendingView, PlayerOpView, SharedView, TargetView, WhoView,
};
use crate::clock::{later, stamp_of, time_of_day, Clock};
use crate::codec::{delivered, frames, message_bytes, CodecView};
use crate::json::JsonView;
use crate::messages::{ping_json, play_uri_json, pong_json, typed};
use crate::peerjs::CoreEventView;
use crate::player::PlayerStateView;
use crate::position::{onward, read_position};
use crate::text::dec;
use crate::track::{members_of, track_of, tracks_of, TrackView};
use vstd::prelude::*;

verus! {

/// What a host has sent has been under way for half the ping; while the ping is not known, for
/// the time since it was sent, where that is no more than half a second.
pub proof fn law_way_is_half_the_round_trip(c: CoreView, ts: i64)
    ensures
        0 < c.link.ping_ms <= 0x8_0000_0000_0000 ==> 2 * c.way_us(ts) == 1000 * c.link.ping_ms,
        c.link.ping_ms <= 0 ==> {
            let ms = stamp_of(c.clock) - ts;
            &&& 0 <= ms <= 500 ==> c.way_us(ts) == 1000 * ms
            &&& ms < 0 ==> c.way_us(ts) == 0
            &&& ms > 500 ==> c.way_us(ts) == 500_000
        },
{
}

/// A host that plays moves on with the time, and one that has paused stands still.
pub proof fn law_target_moves_on(t: TargetView, now: u64)
    requires
        -0x400_0000_0000_0000 <= t.pos_us <= 0x400_0000_0000_0000,
        t.at <= now,
    ensures
        !t.playing ==> t.position(now) == t.pos_us,
        t.playing ==> {
            let us = t.position(now) - t.pos_us;
            us % 1000 == 0 && us * 1000 <= now - t.at < (us + 1000) * 1000
        },
        t.playing && now == t.at ==> t.position(now) == t.pos_us,
{
    let ns: nat = (now - t.at) as nat;
    assert(ns / 1_000_000nat * 1000 * 1000 <= ns < (ns / 1_000_000nat * 1000 + 1000) * 1000);
}

/// The smoothed drift lies between the old and the new one, seven parts to three, rounded up;
/// the first measurement counts whole.
pub proof fn law_drift_is_smoothed(ema: nat, drift: nat)
    ensures
        ema == 0 ==> smoothed(ema, drift) == drift,
        ema > 0 ==> 7 * ema + 3 * drift <= 10 * smoothed(ema, drift) <= 7 * ema + 3 * drift + 9,
{
}

/// A guest that is off by the jump threshold, ahead of the host or behind it, is sent to where
/// the host is.
pub proof fn law_guest_far_off_is_sent_to_the_host(
    c: CoreView,
    pos: i64,
    ts: i64,
    s: PlayerStateView,
    d: DrawnView,
)
    requires
        c.waiting == Some(ContView::Drift { pos_us: pos, ts }),
        c.drift.enabled,
        c.drift.ema == 0,
        c.drift.deadband <= c.drift.jump,
        !c.dry_run,
        s.playing,
        s.uri.len() > 0 || s.title.len() > 0,
        ({
            let local = read_position(c.pos, c.clock.steady_ns, s.position_us, true);
            let want = onward(pos as int, c.way_us(ts) as int);
            local - want >= c.drift.jump || want - local >= c.drift.jump
        }),
    ensures
        ({
            let r = c.answered(AnswerView::Player(Some(s)), d);
            let local = read_position(c.pos, c.clock.steady_ns, s.position_us, true);
            let want = onward(pos as int, c.way_us(ts) as int);
            let off: nat = if local < want {
                (want - local) as nat
            } else {
                (local - want) as nat
            };
            &&& r.out == c.out.push(ActionView::Player(PlayerOpView::Seek(want)))
            &&& r.follow == (FollowView { last_applied: Some(c.clock.steady_ns), ..c.follow })
            &&& r.drift == (Drift { ema: 0, count: 0, ..c.drift })
            &&& r.shared.logs.last() == time_of_day(c.clock) + seq![' '] + ("drift "@ + dec(
                off / 1000,
            ) + "ms — corrected"@)
            &&& r.waiting is None
        }),
{
    reveal(CoreView::drift_measured);
    reveal(CoreView::drift_corrected);
}

/// A guest that is within the deadband of the host, ahead of it or behind it, is left alone.
pub proof fn law_guest_near_the_host_is_left_alone(
    c: CoreView,
    pos: i64,
    ts: i64,
    s: PlayerStateView,
    d: DrawnView,
)
    requires
        c.waiting == Some(ContView::Drift { pos_us: pos, ts }),
        c.drift.ema == 0,
        s.playing,
        s.uri.len() > 0 || s.title.len() > 0,
        ({
            let local = read_position(c.pos, c.clock.steady_ns, s.position_us, true);
            let want = onward(pos as int, c.way_us(ts) as int);
            !c.drift.enabled || -c.drift.deadband < local - want < c.drift.deadband
        }),
    ensures
        ({
            let r = c.answered(AnswerView::Player(Some(s)), d);
            let local = read_position(c.pos, c.clock.steady_ns, s.position_us, true);
            let want = onward(pos as int, c.way_us(ts) as int);
            &&& r.out == c.out
            &&& r.follow == c.follow
            &&& r.shared == c.shared
            &&& r.drift.ema == local - want || r.drift.ema == want - local
            &&& c.drift.enabled ==> r.drift.count == 0
            &&& r.waiting is None
        }),
{
    reveal(CoreView::drift_measured);
    reveal(CoreView::drift_corrected);
}

/// A guest that is off by the deadband but not by the jump threshold is sent to where the host
/// is the second time in a row.
pub proof fn law_guest_off_for_long_is_sent_to_the_host(
    c: CoreView,
    clock: Clock,
    first: (i64, i64),
    second: (i64, i64),
    s: PlayerStateView,
    t: PlayerStateView,
    d: DrawnView,
)
    requires
        c.waiting == Some(ContView::Drift { pos_us: first.0, ts: first.1 }),
        c.drift.enabled,
        c.drift.ema == 0,
        c.drift.count == 0,
        !c.dry_run,
        s.playing,
        s.uri.len() > 0 || s.title.len() > 0,
        t.playing,
        t.uri.len() > 0 || t.title.len() > 0,
        ({
            let off = read_position(c.pos, c.clock.steady_ns, s.position_us, true) - onward(
                first.0 as int,
                c.way_us(first.1) as int,
            );
            c.drift.deadband <= off < c.drift.jump || c.drift.deadband <= -off < c.drift.jump
        }),
        ({
            let r = c.answered(AnswerView::Player(Some(s)), d);
            let later_on = CoreView { clock, ..r };
            let off = read_position(r.pos, clock.steady_ns, t.position_us, true) - onward(
                second.0 as int,
                later_on.way_us(second.1) as int,
            );
            off >= c.drift.deadband || -off >= c.drift.deadband
        }),
    ensures
        ({
            let r = c.answered(AnswerView::Player(Some(s)), d);
            let again = CoreView {
                clock,
                waiting: Some(ContView::Drift { pos_us: second.0, ts: second.1 }),
                ..r
            };
            let want = onward(second.0 as int, again.way_us(second.1) as int);
            &&& r.out == c.out
            &&& again.answered(AnswerView::Player(Some(t)), d).out == c.out.push(
                ActionView::Player(PlayerOpView::Seek(want)),
            )
        }),
{
    reveal(CoreView::drift_measured);
    reveal(CoreView::drift_corrected);
}

/// A guest whose player does not play, or plays nothing that is known, has no drift.
pub proof fn law_silent_guest_has_no_drift(
    c: CoreView,
    pos: i64,
    ts: i64,
    st: Option<PlayerStateView>,
    d: DrawnView,
)
    requires
        c.waiting == Some(ContView::Drift { pos_us: pos, ts }),
        st matches Some(s) ==> !s.playing || (s.uri.len() == 0 && s.title.len() == 0),
    ensures
        c.answered(AnswerView::Player(st), d) == (CoreView { waiting: None, ..c }),
{
    reveal(CoreView::drift_measured);
}

/// Drift is measured when the host says where it is, while it plays, unless the player was
/// touched within two seconds.
pub proof fn law_drift_is_measured_when_the_host_says(c: CoreView, n: JsonView)
    requires
        n.text_or("type"@, ""@) == "SYNC_TICK"@,
    ensures
        c.jam_received(n) == if c.follow.target is Some && c.follow.target->0.playing && !c.dry_run
            && (c.follow.last_applied is None || c.clock.steady_ns - c.follow.last_applied->0
            >= 2_000_000_000) {
            CoreView {
                waiting: Some(
                    ContView::Drift {
                        pos_us: match n.scaled_at("pos"@, 1000) {
                            Some(us) => us as i64,
                            None => 0,
                        },
                        ts: match n.int_at("ts"@) {
                            Some(ts) => ts,
                            None => stamp_of(c.clock),
                        },
                    },
                ),
                ..c
            }
        } else {
            c
        },
{
    lemma_kind_sync_tick(c, n);
    reveal(CoreView::tick_received);
    reveal(CoreView::drift_asked);
}

/// Whether the player is on another song than the host: by uri, or by title where the player
/// knows nothing but that.
pub open spec fn astray(t: TargetView, s: PlayerStateView) -> bool {
    if s.uri.len() > 0 || s.title.len() == 0 || t.title.len() == 0 {
        s.uri != t.uri
    } else {
        s.title != t.title
    }
}

/// What tells the guest's songs apart: the uri, or the title where there is none.
pub open spec fn tag(s: PlayerStateView) -> Seq<char> {
    if s.uri.len() > 0 {
        s.uri
    } else {
        seq!['\u{1}'] + s.title
    }
}

/// Where the guest may control playback and its song ended by itself, at the last look less than
/// 3.5 s before its end, what plays now is no pick: the guest asks for the host's song, and
/// nothing else.
pub proof fn law_ended_song_is_no_pick(
    c: CoreView,
    t: TargetView,
    last: LocalView,
    s: PlayerStateView,
    d: DrawnView,
)
    requires
        c.waiting == Some(ContView::Lock),
        c.peer matches Some(p) && p.channel,
        c.follow.target == Some(t),
        c.follow.last_local == Some(last),
        c.who.gc,
        astray(t, s),
        last.key != tag(s),
        last.dur_us > 0,
        last.dur_us - last.pos_us < 3_500_000,
    ensures
        ({
            let r = c.answered(AnswerView::Player(Some(s)), d);
            &&& r.out.len() == c.out.len() + 1
            &&& messages(r.out) == messages(c.out).push(typed("SYNC"@))
            &&& player_ops(r.out) == player_ops(c.out)
            &&& r.follow.playuri_sent == c.follow.playuri_sent
            &&& r.follow.target == c.follow.target
            &&& r.waiting is None
        }),
{
    broadcast use {lemma_messages_push, lemma_ops_push};

    reveal(CoreView::locked);
}

/// A guest whose player was on the host's song at one look, less than 3.5 s before the end of
/// that song, and is on another one at the next, asks for the host's song, and nothing else.
pub proof fn law_player_that_went_on_by_itself_is_no_pick(
    c: CoreView,
    t: TargetView,
    s: PlayerStateView,
    clock: Clock,
    next: PlayerStateView,
    d: DrawnView,
)
    requires
        c.waiting == Some(ContView::Lock),
        c.peer matches Some(p) && p.channel,
        c.follow.target == Some(t),
        c.who.gc,
        !astray(t, s),
        s.duration_us > 0,
        s.duration_us - s.position_us < 3_500_000,
        astray(t, next),
        tag(next) != tag(s),
    ensures
        ({
            let r = c.answered(AnswerView::Player(Some(s)), d);
            let e = CoreView { clock, waiting: Some(ContView::Lock), ..r }.answered(
                AnswerView::Player(Some(next)),
                d,
            );
            &&& r.out == c.out
            &&& e.out.len() == c.out.len() + 1
            &&& messages(e.out) == messages(c.out).push(typed("SYNC"@))
        }),
{
    broadcast use {lemma_messages_push, lemma_ops_push};

    reveal(CoreView::locked);
}

/// Where the guest may control playback, a song that ends within three seconds is no pick
/// either.
pub proof fn law_ending_song_is_no_pick(
    c: CoreView,
    t: TargetView,
    s: PlayerStateView,
    d: DrawnView,
)
    requires
        c.waiting == Some(ContView::Lock),
        c.peer matches Some(p) && p.channel,
        c.follow.target == Some(t),
        c.who.gc,
        astray(t, s),
        s.duration_us > 0,
        s.duration_us - s.position_us < 3_000_000,
    ensures
        ({
            let r = c.answered(AnswerView::Player(Some(s)), d);
            &&& r.out.len() == c.out.len() + 1
            &&& messages(r.out) == messages(c.out).push(typed("SYNC"@))
            &&& r.follow.playuri_sent == c.follow.playuri_sent
            &&& r.waiting is None
        }),
{
    broadcast use {lemma_messages_push, lemma_ops_push};

    reveal(CoreView::locked);
}

/// Whether the guest's last song and the present one are both in the midst.
pub open spec fn midst(c: CoreView, s: PlayerStateView) -> bool {
    &&& s.duration_us <= 0 || s.duration_us - s.position_us >= 3_000_000
    &&& c.follow.last_local matches Some(l) ==> l.key == tag(s) || l.dur_us <= 0 || l.dur_us
        - l.pos_us >= 3_500_000
}

/// A song that the guest picks, where it may control playback, is asked of the host, once: it is
/// not the song from before joining, the session has settled, and it was not asked for already.
pub proof fn law_pick_is_asked_of_the_host(
    c: CoreView,
    t: TargetView,
    s: PlayerStateView,
    d: DrawnView,
)
    requires
        c.waiting == Some(ContView::Lock),
        c.peer matches Some(p) && p.channel,
        c.follow.target == Some(t),
        c.who.gc,
        astray(t, s),
        midst(c, s),
        c.follow.join_baseline != Some(tag(s)),
        c.follow.settle_until is None || c.follow.settle_until->0 <= c.clock.steady_ns,
        c.follow.playuri_sent != Some(s.uri),
    ensures
        ({
            let r = c.answered(AnswerView::Player(Some(s)), d);
            &&& r.out.len() == c.out.len() + 1
            &&& messages(r.out) == messages(c.out).push(play_uri_json(s.uri))
            &&& r.follow.playuri_sent == Some(s.uri)
            &&& r.follow.playuri_sent_at == Some(c.clock.steady_ns)
            &&& r.follow.target == c.follow.target
            &&& r.waiting is None
        }),
{
    broadcast use {lemma_messages_push, lemma_ops_push};

    reveal(CoreView::locked);
    reveal(CoreView::requested);
}

/// A guest that asked the host for a song within three seconds waits for it: nothing is done
/// about a song that is no pick.
pub proof fn law_guest_waits_for_the_host(
    c: CoreView,
    t: TargetView,
    s: PlayerStateView,
    at: u64,
    d: DrawnView,
)
    requires
        c.waiting == Some(ContView::Lock),
        c.follow.target == Some(t),
        c.who.gc,
        astray(t, s),
        midst(c, s),
        c.follow.join_baseline == Some(tag(s)) || c.follow.playuri_sent == Some(s.uri) || (
        c.follow.settle_until is Some && c.follow.settle_until->0 > c.clock.steady_ns),
        c.follow.playuri_sent_at == Some(at),
        c.clock.steady_ns - at < 3_000_000_000,
    ensures
        ({
            let r = c.answered(AnswerView::Player(Some(s)), d);
            &&& r.out == c.out
            &&& r.follow.target == c.follow.target
            &&& r.follow.playuri_sent == c.follow.playuri_sent
            &&& r.waiting is None
        }),
{
    reveal(CoreView::locked);
}

/// A player on another song than the host's, which is no pick, is brought back: the song from
/// before joining, one from while the session settles, one that the host was asked for and that
/// it has not begun within three seconds, and any where the guest may not control playback.
pub proof fn law_player_is_brought_back(
    c: CoreView,
    t: TargetView,
    s: PlayerStateView,
    d: DrawnView,
)
    requires
        c.waiting == Some(ContView::Lock),
        c.follow.target == Some(t),
        t.uri.len() > 0,
        astray(t, s),
        !c.dry_run,
        !c.who.gc || {
            &&& midst(c, s)
            &&& c.follow.join_baseline == Some(tag(s)) || c.follow.playuri_sent == Some(s.uri) || (
            c.follow.settle_until is Some && c.follow.settle_until->0 > c.clock.steady_ns)
            &&& c.follow.playuri_sent_at is None || c.clock.steady_ns
                - c.follow.playuri_sent_at->0 >= 3_000_000_000
        },
    ensures
        ({
            let r = c.answered(AnswerView::Player(Some(s)), d);
            let here = t.position(c.clock.steady_ns);
            &&& r.out == c.out
            &&& r.question() == Some(QuestionView::Player)
            &&& r.waiting matches Some(ContView::Align { uri, want_us, paused, np, .. }) && uri
                == t.uri && paused == !t.playing && want_us == onward(
                here as int,
                c.way_us(stamp_of(c.clock)) as int,
            ) && (t.title.len() > 0 ==> np == Some(
                TrackView {
                    uri: t.uri,
                    title: t.title,
                    artist: t.artist,
                    art_url: Seq::empty(),
                },
            ))
            &&& r.follow.target matches Some(u) && u.uri == t.uri && u.title == t.title && u.pos_us
                == here && u.at == c.clock.steady_ns && u.playing == t.playing
            &&& r.follow.last_applied == Some(c.clock.steady_ns)
        }),
{
    reveal(CoreView::locked);
    reveal(CoreView::snapped_back);
    reveal(CoreView::applied);
    assert(t.title.len() == 0 ==> t.title =~= Seq::empty());
}

/// A player on the host's song is left alone; the look is noted, and the song from before joining
/// is forgotten.
pub proof fn law_player_on_the_song_is_left_alone(
    c: CoreView,
    t: TargetView,
    s: PlayerStateView,
    d: DrawnView,
)
    requires
        c.waiting == Some(ContView::Lock),
        c.follow.target == Some(t),
        !astray(t, s),
    ensures
        ({
            let r = c.answered(AnswerView::Player(Some(s)), d);
            &&& r.out == c.out
            &&& r.waiting is None
            &&& r.follow == (FollowView {
                join_baseline: None,
                last_local: Some(
                    LocalView { key: tag(s), pos_us: s.position_us, dur_us: s.duration_us },
                ),
                ..c.follow
            })
            &&& r.shared == (SharedView { progress_us: t.position(c.clock.steady_ns), ..c.shared })
        }),
{
    reveal(CoreView::locked);
}

/// Each look at the player of a guest is noted, whatever it shows.
pub proof fn law_look_is_noted(c: CoreView, t: TargetView, s: PlayerStateView, d: DrawnView)
    requires
        c.waiting == Some(ContView::Lock),
        c.follow.target == Some(t),
    ensures
        c.answered(AnswerView::Player(Some(s)), d).follow.last_local == Some(
            LocalView { key: tag(s), pos_us: s.position_us, dur_us: s.duration_us },
        ),
{
    reveal(CoreView::locked);
    reveal(CoreView::requested);
    reveal(CoreView::snapped_back);
    reveal(CoreView::applied);
}

/// A song of the host's becomes what the guest follows, and the player is asked what it does;
/// where playback is left alone nothing is done about it.
pub proof fn law_song_of_the_host_is_followed(c: CoreView, n: JsonView)
    requires
        n.text_or("type"@, ""@) == "PLAY"@,
    ensures
        ({
            let r = c.jam_received(n);
            let uri = n.text_or("uri"@, ""@);
            let pos = match n.scaled_at("pos"@, 1000) {
                Some(us) => us as i64,
                None => 0,
            };
            let ts = match n.int_at("ts"@) {
                Some(ts) => ts,
                None => stamp_of(c.clock),
            };
            let paused = n.bool_at("paused"@) == Some(true);
            let np = match n.get("np"@) {
                Some(v) => track_of(v),
                None => None,
            };
            &&& r.follow.target == Some(
                TargetView {
                    uri: if uri.len() == 0 && c.follow.target is Some {
                        c.follow.target->0.uri
                    } else {
                        uri
                    },
                    title: if np is Some {
                        np->0.title
                    } else {
                        Seq::empty()
                    },
                    artist: if np is Some {
                        np->0.artist
                    } else {
                        Seq::empty()
                    },
                    pos_us: pos,
                    at: c.clock.steady_ns,
                    playing: !paused,
                },
            )
            &&& r.follow.last_applied == Some(c.clock.steady_ns)
            &&& r.shared.playing == !paused
            &&& r.shared.progress_us == pos
            &&& r.shared.now_playing == if np is Some {
                np
            } else {
                c.shared.now_playing
            }
            &&& r.out == c.out
            &&& r.waiting == if c.dry_run {
                c.waiting
            } else {
                Some(
                    ContView::Align {
                        uri,
                        want_us: onward(pos as int, c.way_us(ts) as int),
                        paused,
                        np,
                        progress: false,
                    },
                )
            }
        }),
{
    lemma_kind_play(c, n);
    reveal(CoreView::play_received);
    reveal(CoreView::applied);
    let uri = n.text_or("uri"@, ""@);
    assert(uri.len() == 0 ==> uri =~= Seq::empty());
}

/// A player on another song opens the host's, and a seek waits for it: to where the host will be
/// 350 ms later, for 4.5 s.
pub proof fn law_song_of_the_host_is_opened(
    c: CoreView,
    uri: Seq<char>,
    want: i64,
    paused: bool,
    np: Option<TrackView>,
    progress: bool,
    st: Option<PlayerStateView>,
    d: DrawnView,
)
    requires
        c.waiting == Some(ContView::Align { uri, want_us: want, paused, np, progress }),
        !c.dry_run,
        uri.len() > 0,
        st matches Some(s) ==> if s.uri.len() > 0 {
            s.uri != uri
        } else {
            np is Some && (np->0.title.len() == 0 || np->0.title != s.title)
        },
    ensures
        ({
            let r = c.answered(AnswerView::Player(st), d);
            let title = if np is Some {
                np->0.title
            } else {
                Seq::empty()
            };
            let artist = if np is Some {
                np->0.artist
            } else {
                Seq::empty()
            };
            &&& r.out == c.out.push(
                ActionView::Player(PlayerOpView::Open { uri, title, artist }),
            )
            &&& r.follow.pending == Some(
                PendingView {
                    uri,
                    title,
                    target_us: onward(want as int, 350_000),
                    paused,
                    deadline: later(c.clock.steady_ns, 4_500_000_000),
                    opened: false,
                },
            )
            &&& r.follow.target == c.follow.target
            &&& r.pos.anchor_at is None
            &&& r.waiting is None
            &&& r.shared == if progress && c.follow.target is Some {
                SharedView {
                    progress_us: c.follow.target->0.position(c.clock.steady_ns),
                    ..c.shared
                }
            } else {
                c.shared
            }
        }),
{
    reveal(CoreView::aligned);
}

/// A player on the host's song is paused with it; else it is sent to where the host is, if it is
/// off by more than the jump threshold and by more than 400 ms, ahead or behind, and set
/// playing, if it does not play.
#[verifier::spinoff_prover]
#[verifier::rlimit(40)]
pub proof fn law_player_on_the_song_is_lined_up(
    c: CoreView,
    uri: Seq<char>,
    want: i64,
    paused: bool,
    np: Option<TrackView>,
    progress: bool,
    s: PlayerStateView,
    d: DrawnView,
)
    requires
        c.waiting == Some(ContView::Align { uri, want_us: want, paused, np, progress }),
        !c.dry_run,
        if s.uri.len() > 0 && uri.len() > 0 {
            s.uri == uri
        } else {
            np is None || (np->0.title.len() > 0 && np->0.title == s.title)
        },
    ensures
        ({
            let r = c.answered(AnswerView::Player(Some(s)), d);
            let off = s.position_us - want;
            let far = (off > c.drift.jump && off > 400_000) || (-off > c.drift.jump && -off
                > 400_000);
            let sent = if !paused && far {
                c.out.push(ActionView::Player(PlayerOpView::Seek(want)))
            } else {
                c.out
            };
            &&& r.out == if paused {
                c.out.push(ActionView::Player(PlayerOpView::Pause))
            } else if s.playing {
                sent
            } else {
                sent.push(ActionView::Player(PlayerOpView::Play))
            }
            &&& paused || far ==> r.pos.anchor_at == Some(c.clock.steady_ns) && r.pos.anchor_pos
                == want
            &&& !paused && !far ==> r.pos.anchor_at is None
            &&& r.follow == c.follow
            &&& r.waiting is None
        }),
{
    reveal(CoreView::aligned);
}

/// A seek that waits for its song: made when the player has come to the song, or when it is too
/// late, and not before; a song that is to be paused is paused then.
pub proof fn law_seek_waits_for_its_song(
    c: CoreView,
    mode: Mode,
    p: PendingView,
    s: PlayerStateView,
    d: DrawnView,
)
    requires
        c.waiting == Some(ContView::Pending { mode }),
        c.follow.pending == Some(p),
        !p.opened,
        !c.dry_run,
    ensures
        ({
            let r = c.answered(AnswerView::Player(Some(s)), d);
            let there = if s.uri.len() > 0 && p.uri.len() > 0 {
                s.uri == p.uri
            } else {
                p.title.len() > 0 && s.title == p.title
            };
            let sought = player_ops(c.out).push(PlayerOpView::Seek(p.target_us));
            &&& there ==> {
                &&& player_ops(r.out) == if p.paused {
                    sought.push(PlayerOpView::Pause)
                } else {
                    sought
                }
                &&& r.follow.pending == Some(PendingView { opened: true, ..p })
                &&& r.pos.anchor_pos == p.target_us
                &&& r.pos.anchor_at == Some(c.clock.steady_ns)
            }
            &&& !there && c.clock.steady_ns > p.deadline ==> {
                &&& player_ops(r.out) == sought
                &&& r.follow.pending is None
                &&& r.pos.anchor_pos == p.target_us
                &&& r.pos.anchor_at == Some(c.clock.steady_ns)
            }
            &&& !there && c.clock.steady_ns <= p.deadline ==> {
                &&& player_ops(r.out) == player_ops(c.out)
                &&& r.follow.pending == Some(p)
                &&& r.pos == c.pos
            }
        }),
{
    broadcast use lemma_ops_push;

    let w = CoreView { waiting: None, ..c };
    super::laws::lemma_mode_ticked_is_quiet(w.pending_made(Some(s)), mode);
    reveal(CoreView::pending_made);
}

/// A seek that waits for its song is looked after at each tick until it has been made.
pub proof fn law_waiting_seek_is_looked_after(c: CoreView, p: PendingView, d: DrawnView)
    requires
        c.follow.pending == Some(p),
        c.shared.mode == Mode::Guest,
        c.link.reconnect_at is None || c.clock.steady_ns < c.link.reconnect_at->0,
    ensures
        !p.opened ==> c.ticked(d) == (CoreView {
            waiting: Some(ContView::Pending { mode: Mode::Guest }),
            ..c
        }),
        p.opened ==> c.ticked(d).follow.pending is None && player_ops(c.ticked(d).out)
            == player_ops(c.out),
{
    reveal(CoreView::join_watched);
    reveal(CoreView::reconnect_ticked);
    reveal(CoreView::pending_ticked);
    super::laws::lemma_mode_ticked_is_quiet(
        CoreView { follow: FollowView { pending: None, ..c.follow }, ..c },
        Mode::Guest,
    );
}

/// What a guest does as time passes: a ping every five seconds; a request for the host's song
/// every six, unless the player was touched within three or the host asked within five; and a
/// look at the player every two, where the host's song is known.
#[verifier::spinoff_prover]
#[verifier::rlimit(40)]
pub proof fn law_guest_keeps_time(c: CoreView, d: DrawnView)
    requires
        c.shared.mode == Mode::Guest,
        c.link.reconnect_at is None || c.clock.steady_ns < c.link.reconnect_at->0,
        c.follow.pending is None,
        c.peer matches Some(p) && p.channel,
    ensures
        ({
            let r = c.ticked(d);
            let now = c.clock.steady_ns;
            let pinged = now - c.timers.ping >= 5_000_000_000;
            let synced = now - c.timers.sync >= 6_000_000_000 && (c.follow.last_applied is None
                || now - c.follow.last_applied->0 >= 3_000_000_000) && (
            c.follow.last_sync_req is None || now - c.follow.last_sync_req->0 >= 5_000_000_000);
            let looked = now - c.timers.lock >= 2_000_000_000;
            let asks = looked && c.follow.target is Some && (c.follow.target->0.uri.len() > 0
                || c.follow.target->0.title.len() > 0);
            let one = if pinged {
                messages(c.out).push(ping_json(stamp_of(c.clock) as int))
            } else {
                messages(c.out)
            };
            &&& messages(r.out) == if synced {
                one.push(typed("SYNC"@))
            } else {
                one
            }
            &&& player_ops(r.out) == player_ops(c.out)
            &&& r.timers.ping == if pinged {
                now
            } else {
                c.timers.ping
            }
            &&& r.timers.sync == if now - c.timers.sync >= 6_000_000_000 {
                now
            } else {
                c.timers.sync
            }
            &&& r.timers.lock == if looked {
                now
            } else {
                c.timers.lock
            }
            &&& r.follow.last_sync_req == if synced {
                Some(now)
            } else {
                c.follow.last_sync_req
            }
            &&& r.waiting == if asks {
                Some(ContView::Lock)
            } else {
                c.waiting
            }
            &&& !asks && c.follow.target is Some ==> r.shared.progress_us
                == c.follow.target->0.position(now)
        }),
{
    broadcast use {lemma_messages_push, lemma_ops_push};

    reveal(CoreView::join_watched);
    reveal(CoreView::reconnect_ticked);
    reveal(CoreView::pending_ticked);
    reveal(CoreView::mode_ticked);
    reveal(CoreView::ping_ticked);
    reveal(CoreView::sync_ticked);
    reveal(CoreView::lock_ticked);
}

/// A pause of the host's pauses the guest, and nothing else is known to have changed.
pub proof fn law_guest_pauses_with_the_host(c: CoreView, n: JsonView)
    requires
        n.text_or("type"@, ""@) == "PAUSE"@,
    ensures
        ({
            let r = c.jam_received(n);
            &&& r.out == if c.dry_run {
                c.out
            } else {
                c.out.push(ActionView::Player(PlayerOpView::Pause))
            }
            &&& r.shared == (SharedView { playing: false, ..c.shared })
            &&& c.follow.target is None ==> r.follow == c.follow
            &&& c.follow.target matches Some(t) ==> r.follow == (FollowView {
                target: Some(TargetView { playing: false, ..t }),
                ..c.follow
            })
            &&& r.waiting == c.waiting
        }),
{
    lemma_kind_pause(c, n);
    reveal(CoreView::pause_received);
}

/// A play state of the host's says whether it plays and where, and leaves the song as it is; one
/// that lacks either is passed over.
pub proof fn law_play_state_keeps_the_song(c: CoreView, n: JsonView)
    requires
        n.text_or("type"@, ""@) == "PS"@,
    ensures
        ({
            let r = c.jam_received(n);
            &&& r.out == c.out
            &&& n.bool_at("p"@) is None || n.scaled_at("pos"@, 1000) is None ==> r == c
            &&& n.bool_at("p"@) matches Some(p) ==> (n.scaled_at("pos"@, 1000) matches Some(
                us,
            ) ==> {
                &&& r.follow.target matches Some(t) && t.playing == p && t.pos_us == us as i64
                    && t.at == c.clock.steady_ns && match c.follow.target {
                    Some(o) => t.uri == o.uri && t.title == o.title && t.artist == o.artist,
                    None => t.uri.len() == 0 && t.title.len() == 0 && t.artist.len() == 0,
                }
                &&& r.shared == (SharedView { playing: p, progress_us: us as i64, ..c.shared })
            })
        }),
{
    lemma_kind_ps(c, n);
    reveal(CoreView::play_state_received);
}

/// A seek of the host's is followed, made up for the way there: the player, the position and the
/// host's song are there, and drift is not measured for a while.
pub proof fn law_guest_seeks_with_the_host(c: CoreView, n: JsonView)
    requires
        n.text_or("type"@, ""@) == "SEEK"@,
        !c.dry_run,
    ensures
        ({
            let r = c.jam_received(n);
            let pos = match n.scaled_at("pos"@, 1000) {
                Some(us) => us as i64,
                None => 0,
            };
            let ts = match n.int_at("ts"@) {
                Some(ts) => ts,
                None => stamp_of(c.clock),
            };
            let want = onward(pos as int, c.way_us(ts) as int);
            &&& r.out == c.out.push(ActionView::Player(PlayerOpView::Seek(want)))
            &&& r.pos.anchor_pos == want
            &&& r.pos.anchor_at == Some(c.clock.steady_ns)
            &&& r.follow.last_applied == Some(c.clock.steady_ns)
            &&& c.follow.target is None ==> r.follow.target is None
            &&& c.follow.target matches Some(t) ==> r.follow.target == Some(
                TargetView { pos_us: pos, at: c.clock.steady_ns, ..t },
            )
        }),
{
    lemma_kind_seek(c, n);
    reveal(CoreView::sought);
}

/// What a host says of itself is taken over, field by field; what it does not say stays as it was,
/// but for its name, the permission and that the session is connected.
pub proof fn law_introduction_is_taken_over(c: CoreView, n: JsonView)
    requires
        n.text_or("type"@, ""@) == "INIT"@,
    ensures
        ({
            let r = c.jam_received(n);
            let host = n.text_or("host"@, "Host"@);
            let np = match n.get("np"@) {
                Some(v) => track_of(v),
                None => None,
            };
            &&& r.out == c.out
            &&& r.waiting == c.waiting
            &&& r.who == (WhoView {
                host_name: host,
                gc: n.bool_at("gc"@) == Some(true),
                ..c.who
            })
            &&& r.queue == match n.array_at("queue"@) {
                Some(a) => tracks_of(a),
                None => c.queue,
            }
            &&& r.follow == (FollowView {
                target: match np {
                    Some(t) => Some(
                        TargetView {
                            uri: t.uri,
                            title: t.title,
                            artist: t.artist,
                            pos_us: match n.scaled_at("progress"@, 1000) {
                                Some(us) => us as i64,
                                None => 0,
                            },
                            at: c.clock.steady_ns,
                            playing: n.bool_at("playing"@) == Some(true),
                        },
                    ),
                    None => c.follow.target,
                },
                ..c.follow
            })
            &&& r.shared == (SharedView {
                host_name: host,
                gc: n.bool_at("gc"@) == Some(true),
                queue: r.queue,
                connected: true,
                now_playing: if np is Some {
                    np
                } else {
                    c.shared.now_playing
                },
                progress_us: match n.scaled_at("progress"@, 1000) {
                    Some(us) => us as i64,
                    None => c.shared.progress_us,
                },
                duration_us: match n.scaled_at("duration"@, 1000) {
                    Some(us) => us as i64,
                    None => c.shared.duration_us,
                },
                playing: match n.bool_at("playing"@) {
                    Some(p) => p,
                    None => c.shared.playing,
                },
                logs: r.shared.logs,
                ..c.shared
            })
        }),
{
    lemma_kind_init(c, n);
    reveal(CoreView::introduced);
    reveal(CoreView::song_introduced);
    reveal(CoreView::host_introduced);
}

/// What a host says of its listeners, its queue and its permission is taken over, and nothing
/// else changes; a message that does not say it changes nothing, but for the permission, which is
/// taken away.
pub proof fn law_news_of_the_host_are_taken_over(c: CoreView, n: JsonView)
    ensures
        ({
            let r = c.jam_received(n);
            let kind = n.text_or("type"@, ""@);
            &&& kind == "MEMBERS"@ ==> r == match n.array_at("members"@) {
                Some(a) => CoreView {
                    who: WhoView { members: members_of(a), ..c.who },
                    shared: SharedView { members: members_of(a), ..c.shared },
                    ..c
                },
                None => c,
            }
            &&& kind == "Q"@ ==> r == match n.array_at("queue"@) {
                Some(a) => CoreView {
                    queue: tracks_of(a),
                    shared: SharedView { queue: tracks_of(a), ..c.shared },
                    ..c
                },
                None => c,
            }
            &&& kind == "GCTRL"@ ==> r == (CoreView {
                who: WhoView { gc: n.bool_at("on"@) == Some(true), ..c.who },
                shared: SharedView {
                    gc: n.bool_at("on"@) == Some(true),
                    logs: r.shared.logs,
                    ..c.shared
                },
                ..c
            })
        }),
{
    let kind = n.text_or("type"@, ""@);
    if kind == "MEMBERS"@ {
        lemma_kind_members(c, n);
    }
    if kind == "Q"@ {
        lemma_kind_q(c, n);
    }
    if kind == "GCTRL"@ {
        lemma_kind_gctrl(c, n);
    }
    reveal(CoreView::members_received);
    reveal(CoreView::queue_received);
    reveal(CoreView::permission_received);
}

/// The echo of a ping tells how long the way there and back took, in milliseconds; one without a
/// timestamp tells nothing. A ping is echoed with its own timestamp, and one without is not.
pub proof fn law_ping_is_measured(c: CoreView, n: JsonView)
    ensures
        n.text_or("type"@, ""@) == "PONG"@ ==> {
            let r = c.jam_received(n);
            &&& n.int_at("ts"@) is None ==> r == c
            &&& n.int_at("ts"@) matches Some(ts) ==> {
                &&& r.out == c.out
                &&& 0 <= ts ==> r.link == (Link { ping_ms: r.link.ping_ms, ..c.link })
                    && r.link.ping_ms == stamp_of(c.clock) - ts && r.shared == (SharedView {
                    ping_ms: r.link.ping_ms,
                    ..c.shared
                })
            }
        },
        n.text_or("type"@, ""@) == "PING"@ && c.channel() ==> {
            let r = c.jam_received(n);
            &&& n.int_at("ts"@) is None ==> r == c
            &&& n.int_at("ts"@) matches Some(ts) ==> {
                &&& messages(r.out) == messages(c.out).push(pong_json(ts as int))
                &&& r.out.len() == c.out.len() + 1
            }
        },
{
    broadcast use lemma_messages_push;

    if n.text_or("type"@, ""@) == "PONG"@ {
        lemma_kind_pong(c, n);
    }
    if n.text_or("type"@, ""@) == "PING"@ {
        lemma_kind_ping(c, n);
    }
    reveal(CoreView::pong_received);
    reveal(CoreView::ping_received);
}

/// A message that has to be cut into chunks takes a number of its own; one that has not, takes
/// none. What is sent leaves the session as it was otherwise, and nothing is sent where there is
/// no channel.
pub proof fn law_messages_are_numbered(c: CoreView, msg: JsonView)
    ensures
        ({
            let r = c.sent(msg);
            let cut = message_bytes(msg).len() > 16_300;
            &&& c.codec.sent < u64::MAX && cut ==> r.codec.sent == c.codec.sent + 1
            &&& !cut ==> r.codec.sent == c.codec.sent
            &&& r == (CoreView { codec: r.codec, out: r.out, ..c })
            &&& r.codec.table == c.codec.table
            &&& c.channel() ==> r.out == c.out.push(
                ActionView::Send {
                    msg,
                    frames: frames(message_bytes(msg), c.codec.sent.wrapping_add(1)),
                },
            )
            &&& !c.channel() ==> r.out == c.out
        }),
{
}

/// The smoothed drift decides: from the jump threshold on the player is sent to where the host is,
/// from the deadband on the second time in a row, and below that it is left alone.
pub proof fn law_smoothed_drift_decides(
    c: CoreView,
    pos: i64,
    ts: i64,
    s: PlayerStateView,
    d: DrawnView,
)
    requires
        c.waiting == Some(ContView::Drift { pos_us: pos, ts }),
        c.drift.enabled,
        c.drift.deadband <= c.drift.jump,
        !c.dry_run,
        s.playing,
        s.uri.len() > 0 || s.title.len() > 0,
    ensures
        ({
            let r = c.answered(AnswerView::Player(Some(s)), d);
            let local = read_position(c.pos, c.clock.steady_ns, s.position_us, true);
            let want = onward(pos as int, c.way_us(ts) as int);
            let off: nat = if local < want {
                (want - local) as nat
            } else {
                (local - want) as nat
            };
            let ema = smoothed(c.drift.ema as nat, off);
            &&& r.pos == c.pos.fed(c.clock.steady_ns, s.position_us, true)
            &&& ema >= c.drift.jump || (ema >= c.drift.deadband && c.drift.count > 0) ==> {
                &&& r.out == c.out.push(ActionView::Player(PlayerOpView::Seek(want)))
                &&& r.drift == (Drift { ema: 0, count: 0, ..c.drift })
            }
            &&& c.drift.deadband <= ema < c.drift.jump && c.drift.count == 0 ==> {
                &&& r.out == c.out
                &&& r.drift.count == 1
                &&& ema <= u64::MAX ==> r.drift.ema == ema
            }
            &&& ema < c.drift.deadband ==> {
                &&& r.out == c.out
                &&& r.drift == (Drift { ema: ema as u64, count: 0, ..c.drift })
            }
        }),
{
    reveal(CoreView::drift_measured);
    reveal(CoreView::drift_corrected);
}

/// A message of a kind that is not known changes nothing.
pub proof fn law_unknown_messages_change_nothing(c: CoreView, n: JsonView)
    requires
        ({
            let kind = n.text_or("type"@, ""@);
            &&& kind != "INIT"@ && kind != "PLAY"@ && kind != "PAUSE"@ && kind != "PS"@
            &&& kind != "SEEK"@ && kind != "SYNC_TICK"@ && kind != "PONG"@ && kind != "MEMBERS"@
            &&& kind != "GCTRL"@ && kind != "Q"@ && kind != "KICK"@ && kind != "PING"@
            &&& kind != "JOIN"@ && kind != "SYNC"@ && kind != "ADD_Q"@ && kind != "RM_Q"@
            &&& kind != "MOVE_Q"@ && kind != "CMD"@
        }),
    ensures
        c.jam_received(n) == c,
{
}

/// What the data channel brings is dealt with once it is a whole message; until then nothing is.
pub proof fn law_channel_brings_messages(c: CoreView, b: Seq<u8>, d: DrawnView)
    ensures
        ({
            let r = c.notified(CoreEventView::DcRaw(b), d);
            let (table, msg) = delivered(c.codec.table, b);
            let e = CoreView { codec: CodecView { table, ..c.codec }, ..c };
            &&& msg is None ==> r == e
            &&& msg matches Some(m) ==> r == e.jam_received(m)
        }),
{
    reveal(CoreView::frame_received);
}

/// Where the player does not say what it does, nothing is done about it: it is not held to a song,
/// and a seek goes on waiting.
pub proof fn law_silent_player_is_left_alone(c: CoreView, mode: Mode, d: DrawnView)
    ensures
        c.waiting == Some(ContView::Lock) ==> {
            let r = c.answered(AnswerView::Player(None), d);
            &&& r.out == c.out
            &&& r.follow == c.follow
            &&& r.waiting is None
            &&& r.queue == c.queue
        },
        c.waiting == Some(ContView::Pending { mode }) ==> {
            let r = c.answered(AnswerView::Player(None), d);
            &&& player_ops(r.out) == player_ops(c.out)
            &&& r.follow.pending == c.follow.pending
            &&& r.pos == c.pos
        },
{
    let w = CoreView { waiting: None, ..c };
    super::laws::lemma_mode_ticked_is_quiet(w.pending_made(None), mode);
    reveal(CoreView::locked);
    reveal(CoreView::pending_made);
}

/// Where playback is left alone, the host's song is followed in what is shown, and nothing else is
/// done: the player is not asked, and drift is not measured.
pub proof fn law_dry_run_only_shows(c: CoreView, n: JsonView)
    requires
        c.dry_run,
    ensures
        ({
            let r = c.jam_received(n);
            let kind = n.text_or("type"@, ""@);
            &&& kind == "PLAY"@ || kind == "PAUSE"@ || kind == "SEEK"@ || kind == "SYNC_TICK"@
                ==> r.out == c.out && r.waiting == c.waiting
            &&& kind == "CMD"@ ==> r == (CoreView {
                shared: SharedView { logs: r.shared.logs, ..c.shared },
                ..c
            })
        }),
{
    let kind = n.text_or("type"@, ""@);
    if kind == "PLAY"@ {
        lemma_kind_play(c, n);
    }
    if kind == "PAUSE"@ {
        lemma_kind_pause(c, n);
    }
    if kind == "SEEK"@ {
        lemma_kind_seek(c, n);
    }
    if kind == "SYNC_TICK"@ {
        lemma_kind_sync_tick(c, n);
    }
    if kind == "CMD"@ {
        lemma_kind_cmd(c, n);
    }
    reveal(CoreView::play_received);
    reveal(CoreView::applied);
    reveal(CoreView::pause_received);
    reveal(CoreView::sought);
    reveal(CoreView::tick_received);
    reveal(CoreView::drift_asked);
    reveal(CoreView::command_received);
}

} // verus!
