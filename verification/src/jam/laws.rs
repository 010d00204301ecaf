//! What holds of sessions as a whole.
use super::hosting::{cached, watch_key};
use super::keeping::{
    consistent, kept, lemma_answered, lemma_commanded, lemma_notified, lemma_ticked, player_ops,
};
use super::resume::{AnswerView, QuestionView};
use super::session::wished_code;
use super::signal::BACKOFF;
use super::sync::{in_place, near_end, on_target, ran_out, smoothed};
use super::{
    started, ActionView, ContView, CoreView, DrawnView, Mode, PendingView, PlayerOpView,
    PurposeView, SharedView, TargetView, TitleView, UiCmdView,
};
use crate::clock::{later, passed, Clock, SECOND};
use crate::json::JsonView;
use crate::peerjs::{all_alnum, CoreEventView};
use crate::player::PlayerStateView;
use crate::position::{apart, onward, read_position};
use crate::track::{moved, without_uri, TrackView};
use vstd::prelude::*;

verus! {

/// Where playback is left alone, nothing that happens tells the player anything.
pub proof fn law_dry_run_leaves_playback_alone(
    c: CoreView,
    cmd: UiCmdView,
    ev: CoreEventView,
    a: AnswerView,
    d: DrawnView,
)
    requires
        c.dry_run,
    ensures
        player_ops(c.commanded(cmd, d).out) == player_ops(c.out),
        player_ops(c.notified(ev, d).out) == player_ops(c.out),
        player_ops(c.answered(a, d).out) == player_ops(c.out),
        player_ops(c.ticked(d).out) == player_ops(c.out),
{
    broadcast use {lemma_commanded, lemma_notified, lemma_answered, lemma_ticked};

    assert(kept(c, c.commanded(cmd, d)));
    assert(kept(c, c.notified(ev, d)));
    assert(kept(c, c.answered(a, d)));
    assert(kept(c, c.ticked(d)));
}

/// A session is consistent from its start, and every step keeps it so.
pub proof fn law_sessions_stay_consistent(
    player: Seq<char>,
    dry_run: bool,
    clock: Clock,
    c: CoreView,
    cmd: UiCmdView,
    ev: CoreEventView,
    a: AnswerView,
    d: DrawnView,
)
    ensures
        consistent(started(player, dry_run, clock)),
        consistent(c) ==> {
            &&& consistent(c.commanded(cmd, d))
            &&& consistent(c.notified(ev, d))
            &&& consistent(c.answered(a, d))
            &&& consistent(c.ticked(d))
        },
{
    broadcast use {lemma_commanded, lemma_notified, lemma_answered, lemma_ticked};

    assert(kept(c, c.commanded(cmd, d)));
    assert(kept(c, c.notified(ev, d)));
    assert(kept(c, c.answered(a, d)));
    assert(kept(c, c.ticked(d)));
}

/// Whether an answer is one to a question.
pub open spec fn suits(q: QuestionView, a: AnswerView) -> bool {
    match q {
        QuestionView::Player => a is Player,
        QuestionView::MakePlayer(_) => a is Made,
        QuestionView::Connect(_) => a is Connected,
        QuestionView::Offer(_) => a is Offered,
        QuestionView::Answer { .. } => a is Answered,
        QuestionView::Accept(_) => a is Accepted,
        QuestionView::Channel => a is Channel,
        QuestionView::Fetch(_) => a is Fetched,
        QuestionView::Curl(_) => a is Curled,
        QuestionView::Enqueue { .. } => a is Enqueued,
    }
}

/// An answer changes nothing where no question is put, or another one than it answers.
pub proof fn law_other_answers_change_nothing(c: CoreView, a: AnswerView, d: DrawnView)
    requires
        !(c.question() matches Some(q) && suits(q, a)),
    ensures
        c.answered(a, d) == c,
{
}

/// A guest that loses the host reconnects three times in a row, and waits 1.5 s longer each
/// time; the fourth loss ends the session.
pub proof fn law_guest_reconnects_three_times(c: CoreView, d: DrawnView)
    requires
        !c.who.is_host,
    ensures
        c.link.reconnects < 3 ==> {
            let r = c.notified(CoreEventView::DcClosed, d);
            &&& r.link.reconnects == c.link.reconnects + 1
            &&& r.link.reconnect_at == Some(
                later(c.now(), (BACKOFF * (c.link.reconnects + 1)) as u64),
            )
            &&& r.shared.mode == c.shared.mode
            &&& r.peer is None
        },
        c.link.reconnects >= 3 ==> {
            let r = c.notified(CoreEventView::DcClosed, d);
            &&& r.link.reconnect_at == c.link.reconnect_at
            &&& r.shared.mode == Mode::Idle
            &&& r.shared.error == Some("lost the host"@)
            &&& r.peer is None
            &&& !r.signaling
        },
        c.notified(CoreEventView::DcOpen, d).link.reconnects == 0,
{
    reveal(CoreView::channel_closed);
    reveal(CoreView::channel_opened);
}

/// A session that was left is not connected, and stays so as time passes.
pub proof fn law_leaving_is_final(c: CoreView, clock: Clock, d: DrawnView)
    ensures
        ({
            let r = c.commanded(UiCmdView::Leave, d);
            &&& r.shared.mode == Mode::Idle
            &&& !r.shared.connected
            &&& !r.signaling
            &&& r.peer is None
        }),
        ({
            let left = c.commanded(UiCmdView::Leave, d);
            let r = (CoreView { clock, waiting: None, ..left }).ticked(d);
            &&& !r.signaling
            &&& r.peer is None
            &&& !(r.waiting matches Some(k) && k is Reconnect)
        }),
{
    reveal(CoreView::left);
    reveal(CoreView::join_watched);
    reveal(CoreView::reconnect_ticked);
    reveal(CoreView::pending_ticked);
    reveal(CoreView::mode_ticked);
}

/// A host that has a guest turns others away: an offer of theirs is only written to the log.
pub proof fn law_second_guest_is_turned_away(c: CoreView, v: JsonView, d: DrawnView)
    requires
        c.who.is_host,
        c.peer is Some,
        v.text_or("type"@, ""@) == "OFFER"@,
    ensures
        ({
            let r = c.notified(CoreEventView::SignalMessage(v), d);
            r == (CoreView { shared: SharedView { logs: r.shared.logs, ..c.shared }, ..c })
        }),
{
    reveal_strlit("OFFER");
    reveal_strlit("OPEN");
    reveal_strlit("ID-TAKEN");
    reveal_strlit("EXPIRE");
    reveal_strlit("ERROR");
    assert("OFFER"@.len() == 5);
    assert("OPEN"@.len() == 4);
    assert("ID-TAKEN"@.len() == 8);
    assert("EXPIRE"@.len() == 6);
    assert("OFFER"@[0] == 'O');
    assert("ERROR"@[0] == 'E');
    reveal(CoreView::offer_received);
}

/// The id of a host is the code that it shows, and has up to eight letters and digits; a host
/// without a wish gets one of six.
pub proof fn law_host_is_known_by_its_code(
    c: CoreView,
    name: Seq<char>,
    gc: bool,
    code: Option<Seq<char>>,
    d: DrawnView,
)
    requires
        d.wf(),
    ensures
        ({
            let r = c.commanded(UiCmdView::Host { name, gc, code }, d);
            &&& r.who.is_host
            &&& r.who.jam_id == r.shared.jam_id
            &&& 1 <= r.who.jam_id.len() <= 8
            &&& all_alnum(r.who.jam_id)
            &&& code is None ==> r.who.jam_id == d.code
        }),
{
    reveal(CoreView::hosted);
    reveal(CoreView::session_started);
    reveal(CoreView::session_named);
    if let Some(w) = code {
        lemma_alnums(
            if w.len() > 8 {
                w.take(8)
            } else {
                w
            },
        );
    } else {
        lemma_alnums(Seq::empty());
        assert(wished_code(Seq::empty()).len() == 0);
    }
}

/// The letters and digits of a text are letters and digits, and no more than the text has
/// characters.
proof fn lemma_alnums(s: Seq<char>)
    ensures
        super::session::alnums(s).len() <= s.len(),
        all_alnum(super::session::alnums(s)),
    decreases s.len(),
{
    if s.len() > 0 {
        lemma_alnums(s.drop_last());
    }
}

/// A player on another song than the host's is brought back to it, where guests may not control
/// playback and the host's song has a uri: unless the player has come to that song meanwhile, the
/// song is opened, and the session waits for it to seek to where the host is.
pub proof fn law_guest_is_locked_to_the_host(
    c: CoreView,
    t: TargetView,
    s: PlayerStateView,
    after: PlayerStateView,
    d: DrawnView,
    e: DrawnView,
)
    requires
        c.waiting == Some(ContView::Lock),
        c.follow.target == Some(t),
        t.uri.len() > 0,
        !on_target(t, s),
        !c.who.gc,
        !c.dry_run,
        after.uri.len() > 0,
        after.uri != t.uri,
    ensures
        ({
            let asked = c.answered(AnswerView::Player(Some(s)), d);
            let r = asked.answered(AnswerView::Player(Some(after)), e);
            let here = onward(t.position(c.now()) as int, c.comp_us() as int);
            &&& asked.question() == Some(QuestionView::Player)
            &&& player_ops(r.out) == player_ops(c.out).push(
                PlayerOpView::Open {
                    uri: t.uri,
                    title: t.title,
                    artist: if t.title.len() == 0 {
                        Seq::empty()
                    } else {
                        t.artist
                    },
                },
            )
            &&& r.follow.pending matches Some(p) && p.uri == t.uri && !p.opened && p.paused
                == !t.playing && p.target_us == onward(here as int, 350_000)
        }),
{
    broadcast use super::keeping::lemma_ops_push;

    reveal(CoreView::locked);
    reveal(CoreView::snapped_back);
    reveal(CoreView::applied);
    reveal(CoreView::aligned);
    assert(t.title.len() == 0 ==> t.title =~= Seq::empty());
}

/// The rest of a tick tells the player nothing and keeps a waiting seek and the position.
pub(super) proof fn lemma_mode_ticked_is_quiet(c: CoreView, mode: Mode)
    ensures
        player_ops(c.mode_ticked(mode).out) == player_ops(c.out),
        c.mode_ticked(mode).follow.pending == c.follow.pending,
        c.mode_ticked(mode).pos == c.pos,
{
    broadcast use super::keeping::lemma_ops_push;

    reveal(CoreView::mode_ticked);
    reveal(CoreView::ping_ticked);
    reveal(CoreView::sync_ticked);
    reveal(CoreView::lock_ticked);
    reveal(CoreView::watch_ticked);
    reveal(CoreView::position_ticked);
    reveal(CoreView::pause_ticked);
}

/// A seek that waits for its song is made when the song has been opened.
pub proof fn law_waiting_seek_is_made(
    c: CoreView,
    mode: Mode,
    p: PendingView,
    s: PlayerStateView,
    d: DrawnView,
)
    requires
        c.waiting == Some(ContView::Pending { mode }),
        c.follow.pending == Some(p),
        !p.opened,
        !c.dry_run,
        p.uri.len() > 0,
        s.uri == p.uri,
    ensures
        ({
            let r = c.answered(AnswerView::Player(Some(s)), d);
            &&& r.follow.pending == Some(PendingView { opened: true, ..p })
            &&& player_ops(r.out) == if p.paused {
                player_ops(c.out).push(PlayerOpView::Seek(p.target_us)).push(PlayerOpView::Pause)
            } else {
                player_ops(c.out).push(PlayerOpView::Seek(p.target_us))
            }
            &&& r.pos.predicted(c.now()) == crate::binary64::held(p.target_us as int)
        }),
{
    broadcast use super::keeping::lemma_ops_push;

    let w = CoreView { waiting: None, ..c };
    lemma_mode_ticked_is_quiet(w.pending_made(Some(s)), mode);
    reveal(CoreView::pending_made);
}

/// A guest on the host's song, playing within the jump threshold of the host's position, is left
/// alone.
pub proof fn law_guest_in_place_is_left_alone(
    c: CoreView,
    uri: Seq<char>,
    want: i64,
    np: Option<TrackView>,
    s: PlayerStateView,
)
    requires
        in_place(uri, np, s),
        s.playing,
        apart(s.position_us as int, want as int) <= c.drift.jump,
    ensures
        c.aligned(uri, want, false, np, Some(s)).out == c.out,
{
    reveal(CoreView::aligned);
}

/// Nothing is opened for a song that has no uri.
pub proof fn law_nothing_is_opened_without_uri(
    c: CoreView,
    want: i64,
    paused: bool,
    np: Option<TrackView>,
    st: Option<PlayerStateView>,
)
    requires
        !(st matches Some(s) && in_place(Seq::empty(), np, s)),
    ensures
        c.aligned(Seq::empty(), want, paused, np, st).out == c.out,
        c.aligned(Seq::empty(), want, paused, np, st).follow == c.follow,
{
    reveal(CoreView::aligned);
}

/// Drift under the deadband is never corrected, and neither is any while the correction is off.
pub proof fn law_small_drift_is_left_alone(c: CoreView, want: i64, drift: nat)
    requires
        !c.drift.enabled || smoothed(c.drift.ema as nat, drift) < c.drift.deadband,
    ensures
        c.drift_corrected(want, drift).out == c.out,
        c.drift_corrected(want, drift).shared == c.shared,
        c.drift_corrected(want, drift).follow == c.follow,
{
    reveal(CoreView::drift_corrected);
}

/// Drift past the jump threshold is corrected at once, and drift past the deadband the second
/// time in a row: the player is sent to the right position, and the smoothing starts anew.
pub proof fn law_large_drift_is_corrected(c: CoreView, want: i64, drift: nat)
    requires
        c.drift.enabled,
        c.drift.deadband <= c.drift.jump,
        !c.dry_run,
        ({
            let ema = smoothed(c.drift.ema as nat, drift);
            ema >= c.drift.jump || (ema >= c.drift.deadband && c.drift.count > 0)
        }),
    ensures
        ({
            let r = c.drift_corrected(want, drift);
            &&& r.out == c.out.push(ActionView::Player(PlayerOpView::Seek(want)))
            &&& r.drift.ema == 0
            &&& r.drift.count == 0
            &&& r.follow.last_applied == Some(c.now())
        }),
{
    reveal(CoreView::drift_corrected);
}

/// Drift between the deadband and the jump threshold is corrected the second time in a row.
pub proof fn law_lasting_drift_is_corrected(c: CoreView, want: i64, first: nat, second: nat)
    requires
        c.drift.enabled,
        !c.dry_run,
        c.drift.count == 0,
        c.drift.deadband <= smoothed(c.drift.ema as nat, first) < c.drift.jump,
        smoothed(c.drift.ema as nat, first) <= u64::MAX,
        smoothed(smoothed(c.drift.ema as nat, first), second) >= c.drift.deadband,
    ensures
        c.drift_corrected(want, first).out == c.out,
        c.drift_corrected(want, first).drift_corrected(want, second).out == c.out.push(
            ActionView::Player(PlayerOpView::Seek(want)),
        ),
{
    reveal(CoreView::drift_corrected);
}

/// The player is not sent about within two seconds of having been.
pub proof fn law_drift_rests_after_a_seek(c: CoreView, pos: i64, ts: i64, at: u64)
    requires
        c.follow.last_applied == Some(at),
        passed(c.now(), at) < 2 * SECOND,
    ensures
        c.drift_asked(pos, ts) == c,
{
    reveal(CoreView::drift_asked);
}

/// The song from before joining is never pushed to the host, and nothing is while the session
/// settles; where guests may not control playback, nothing ever is.
pub proof fn law_only_picks_are_pushed(c: CoreView, s: PlayerStateView)
    ensures
        c.follow.join_baseline == Some(s.key()) ==> !c.picked(s),
        c.follow.settle_until matches Some(u) && c.now() < u ==> !c.picked(s),
        !c.who.gc ==> !c.picked(s),
{
}

/// A song that ended by itself makes the guest ask for the host's song, and nothing else.
pub proof fn law_natural_end_asks_for_the_host(
    c: CoreView,
    t: TargetView,
    s: PlayerStateView,
    d: DrawnView,
)
    requires
        c.waiting == Some(ContView::Lock),
        c.follow.target == Some(t),
        !on_target(t, s),
        c.who.gc,
        ran_out(c.follow.last_local, s.key()) || near_end(s),
    ensures
        ({
            let r = c.answered(AnswerView::Player(Some(s)), d);
            &&& r.out == c.sent(crate::messages::typed("SYNC"@)).out
            &&& r.waiting is None
            &&& r.follow.target == c.follow.target
            &&& r.follow.playuri_sent == c.follow.playuri_sent
        }),
{
    reveal(CoreView::locked);
}

/// A song that was taken out of the queue is not in it any more, and the others are.
pub proof fn law_removed_song_is_gone(q: Seq<TrackView>, uri: Seq<char>)
    ensures
        forall|i: int|
            0 <= i < without_uri(q, uri).len() ==> (#[trigger] without_uri(q, uri)[i]).uri != uri,
        forall|t: TrackView|
            t.uri != uri ==> without_uri(q, uri).to_multiset().count(t)
                == #[trigger] q.to_multiset().count(t),
    decreases q.len(),
{
    broadcast use vstd::seq_lib::group_to_multiset_ensures;

    if q.len() > 0 {
        law_removed_song_is_gone(q.drop_last(), uri);
        assert(q =~= q.drop_last().push(q.last()));
        let w = without_uri(q.drop_last(), uri);
        assert forall|i: int| 0 <= i < without_uri(q, uri).len() implies (
        #[trigger] without_uri(q, uri)[i]).uri != uri by {
            if i < w.len() {
                assert(without_uri(q, uri)[i] == w[i]);
            }
        }
    }
}

/// Moving a song keeps all songs, puts that one where it was asked for, and leaves the others in
/// their order.
pub proof fn law_moving_keeps_the_songs(q: Seq<TrackView>, from: int, to: int)
    requires
        0 <= from < q.len(),
        0 <= to,
    ensures
        moved(q, from, to).len() == q.len(),
        moved(q, from, to)[if to < q.len() - 1 {
            to
        } else {
            q.len() - 1
        }] == q[from],
        moved(q, from, to).remove(
            if to < q.len() - 1 {
                to
            } else {
                q.len() - 1
            },
        ) == q.remove(from),
{
    let p = if to < q.len() - 1 {
        to
    } else {
        q.len() - 1
    };
    assert(moved(q, from, to).remove(p) =~= q.remove(from));
}

/// A song is looked up once: after its description has come, the same song is served without
/// asking for it again.
pub proof fn law_title_is_looked_up_once(
    c: CoreView,
    t: TrackView,
    v: JsonView,
    purpose: PurposeView,
    again: TrackView,
    next: PurposeView,
)
    requires
        again.uri == t.uri,
        !(c.waiting matches Some(k) && k is Meta),
    ensures
        !(c.described(t, v, purpose).looked_up(again, next).waiting matches Some(k) && k is Meta),
{
    reveal(CoreView::described);
    reveal(CoreView::looked_up);
    let title = v.text_or("title"@, ""@);
    let art_url = v.text_or("thumbnail_url"@, ""@);
    let e = TitleView { uri: t.uri, title, art_url };
    assert(cached(c.titles.push(e), e.uri) == Some(e));
    lemma_served_keeps_titles(
        CoreView { titles: c.titles.push(e), ..c },
        super::hosting::titled(t, title, art_url),
        purpose,
    );
    let r = c.described(t, v, purpose);
    let k = cached(r.titles, again.uri)->0;
    lemma_served_keeps_titles(r, super::hosting::titled(again, k.title, k.art_url), next);
    lemma_served_keeps_titles(r, again, next);
}

/// Using a song looks nothing up.
proof fn lemma_served_keeps_titles(c: CoreView, t: TrackView, purpose: PurposeView)
    ensures
        c.served(t, purpose).titles == c.titles,
        c.served(t, purpose).waiting == c.waiting || !(c.served(t, purpose).waiting matches Some(k)
            && k is Meta),
{
    reveal(CoreView::served);
    reveal(CoreView::offered);
    reveal(CoreView::enqueued);
    reveal(CoreView::requeued);
}

/// Songs leave the queue in the order in which they came in.
pub proof fn law_queue_is_first_in_first_out(c: CoreView)
    requires
        c.queue.len() > 0,
        !c.dry_run,
    ensures
        c.played_next().queue == c.queue.skip(1),
        c.played_next().shared.queue == c.queue.skip(1),
        player_ops(c.played_next().out) == player_ops(c.out).push(
            PlayerOpView::Open {
                uri: c.queue[0].uri,
                title: c.queue[0].title,
                artist: c.queue[0].artist,
            },
        ),
{
    broadcast use super::keeping::lemma_ops_push;

    reveal(CoreView::played_next);
    reveal(CoreView::requeued);
}

/// A song change of the host's is announced at the song's start, and reports of the player that
/// are far off do not move the position during the next five seconds.
pub proof fn law_song_change_starts_at_zero(
    c: CoreView,
    s: PlayerStateView,
    now: u64,
    reported: i64,
)
    requires
        c.now() <= now,
        now < later(c.now(), (5 * SECOND) as u64),
    ensures
        ({
            let r = c.begun(s);
            &&& r.out == c.announced(s, None).out
            &&& r.pos.predicted(c.now()) == 0
            &&& apart(reported as int, r.pos.predicted(now) as int) > 700_000 ==> read_position(
                r.pos,
                now,
                reported,
                true,
            ) == r.pos.predicted(now)
        }),
{
    reveal(CoreView::begun);
    reveal(CoreView::announced);
}

/// A host whose player goes on with the same song tells nothing.
pub proof fn law_steady_host_is_silent(c: CoreView, s: PlayerStateView, d: DrawnView)
    requires
        c.waiting == Some(ContView::Watch),
        c.watch.last_uri == Some(watch_key(s)),
        c.watch.last_playing == Some(s.playing),
    ensures
        ({
            let r = c.answered(AnswerView::Player(Some(s)), d);
            &&& r.out == c.out
            &&& r.queue == c.queue
            &&& r.shared.logs == c.shared.logs
        }),
{
    reveal(CoreView::watch_done);
    reveal(CoreView::watched);
    reveal(CoreView::noted);
    reveal(CoreView::shown);
    reveal(CoreView::position_ticked);
    reveal(CoreView::pause_ticked);
}

} // verus!
