//! What every step of a session keeps.
use super::resume::AnswerView;
use super::{
    ActionView, AnsweredView, ContView, CoreView, DrawnView, Mode, OfferedView, PendingView,
    PlayerOpView, PurposeView, TargetView, UiCmdView, LOG_LINES,
};
use crate::json::JsonView;
use crate::peerjs::CoreEventView;
use crate::player::PlayerStateView;
use crate::track::TrackView;
use vstd::prelude::*;

verus! {

/// What the player is told among some actions, in order.
pub open spec fn player_ops(out: Seq<ActionView>) -> Seq<PlayerOpView>
    decreases out.len(),
{
    if out.len() == 0 {
        Seq::empty()
    } else {
        match out.last() {
            ActionView::Player(op) => player_ops(out.drop_last()).push(op),
            _ => player_ops(out.drop_last()),
        }
    }
}

/// What the other side is sent among some actions, in order.
pub open spec fn messages(out: Seq<ActionView>) -> Seq<JsonView>
    decreases out.len(),
{
    if out.len() == 0 {
        Seq::empty()
    } else {
        match out.last() {
            ActionView::Send { msg, .. } => messages(out.drop_last()).push(msg),
            _ => messages(out.drop_last()),
        }
    }
}

/// What holds of a session at all times: the log is bounded, the jump threshold is not below the
/// deadband, the user sees the drift correction and the guest's permission as they are, and where
/// playback is left alone no song is offered to the player's own queue.
pub open spec fn consistent(c: CoreView) -> bool {
    &&& c.shared.logs.len() <= LOG_LINES
    &&& c.drift.deadband <= c.drift.jump
    &&& c.shared.drift_enabled == c.drift.enabled
    &&& c.shared.drift_deadband_us == c.drift.deadband
    &&& c.shared.drift_jump_us == c.drift.jump
    &&& c.shared.gc == c.who.gc
    &&& c.dry_run ==> !(c.waiting matches Some(k) && k is Enqueue)
}

/// What a step keeps: whether playback is left alone; then, what the player is told; and what
/// holds of a session at all times.
pub open spec fn kept(c: CoreView, d: CoreView) -> bool {
    &&& d.dry_run == c.dry_run
    &&& c.dry_run ==> player_ops(d.out) == player_ops(c.out)
    &&& consistent(c) ==> consistent(d)
}

/// One more action, and what the player is told.
pub broadcast proof fn lemma_ops_push(out: Seq<ActionView>, a: ActionView)
    ensures
        #[trigger] player_ops(out.push(a)) == match a {
            ActionView::Player(op) => player_ops(out).push(op),
            _ => player_ops(out),
        },
{
    assert(out.push(a).drop_last() =~= out);
}

/// One more action, and what the other side is sent.
pub broadcast proof fn lemma_messages_push(out: Seq<ActionView>, a: ActionView)
    ensures
        #[trigger] messages(out.push(a)) == match a {
            ActionView::Send { msg, .. } => messages(out).push(msg),
            _ => messages(out),
        },
{
    assert(out.push(a).drop_last() =~= out);
}

/// `logged` keeps what every step keeps.
pub broadcast proof fn lemma_logged(c: CoreView, msg: Seq<char>)
    ensures
        kept(c, #[trigger] c.logged(msg)),
{
}

/// `told` keeps what every step keeps.
pub broadcast proof fn lemma_told(c: CoreView, op: PlayerOpView)
    ensures
        kept(c, #[trigger] c.told(op)),
{
}

/// `sent` keeps what every step keeps.
pub broadcast proof fn lemma_sent(c: CoreView, msg: JsonView)
    ensures
        kept(c, #[trigger] c.sent(msg)),
{
    broadcast use lemma_ops_push;

}

/// `signalled` keeps what every step keeps.
pub broadcast proof fn lemma_signalled(c: CoreView, msg: JsonView)
    ensures
        kept(c, #[trigger] c.signalled(msg)),
{
    broadcast use lemma_ops_push;

}

/// `peerless` keeps what every step keeps.
pub broadcast proof fn lemma_peerless(c: CoreView)
    ensures
        kept(c, #[trigger] c.peerless()),
{
    broadcast use lemma_ops_push;

}

/// `unsignalled` keeps what every step keeps.
pub broadcast proof fn lemma_unsignalled(c: CoreView)
    ensures
        kept(c, #[trigger] c.unsignalled()),
{
    broadcast use lemma_ops_push;

}

/// `left_quietly` keeps what every step keeps.
pub broadcast proof fn lemma_left_quietly(c: CoreView)
    ensures
        kept(c, #[trigger] c.left_quietly()),
{
    broadcast use {lemma_ops_push, lemma_peerless, lemma_unsignalled};

}

/// `progressed` keeps what every step keeps.
pub broadcast proof fn lemma_progressed(c: CoreView)
    ensures
        kept(c, #[trigger] c.progressed()),
{
    broadcast use lemma_ops_push;

}

/// `resumed_tick` keeps what every step keeps.
pub broadcast proof fn lemma_resumed_tick(c: CoreView, progress: bool)
    ensures
        kept(c, #[trigger] c.resumed_tick(progress)),
{
    broadcast use {lemma_ops_push, lemma_progressed};

}

/// `retargeted` keeps what every step keeps.
pub broadcast proof fn lemma_retargeted(
    c: CoreView,
    uri: Seq<char>,
    pos: i64,
    paused: bool,
    np: Option<TrackView>,
)
    ensures
        kept(c, #[trigger] c.retargeted(uri, pos, paused, np)),
{
    broadcast use lemma_ops_push;

}

/// `applied` keeps what every step keeps.
pub broadcast proof fn lemma_applied(
    c: CoreView,
    uri: Seq<char>,
    pos: i64,
    ts: i64,
    paused: bool,
    np: Option<TrackView>,
    progress: bool,
)
    ensures
        kept(c, #[trigger] c.applied(uri, pos, ts, paused, np, progress)),
{
    broadcast use {lemma_ops_push, lemma_retargeted, lemma_logged, lemma_resumed_tick};

    reveal(CoreView::applied);
}

/// `set_playing` keeps what every step keeps.
pub broadcast proof fn lemma_set_playing(c: CoreView, playing: bool)
    ensures
        kept(c, #[trigger] c.set_playing(playing)),
{
    broadcast use {lemma_ops_push, lemma_told};

}

/// `nudged` keeps what every step keeps.
pub broadcast proof fn lemma_nudged(c: CoreView, s: PlayerStateView, want: i64, paused: bool)
    ensures
        kept(c, #[trigger] c.nudged(s, want, paused)),
{
    broadcast use {lemma_ops_push, lemma_told, lemma_set_playing};

}

/// `awaiting` keeps what every step keeps.
pub broadcast proof fn lemma_awaiting(c: CoreView, p: PendingView)
    ensures
        kept(c, #[trigger] c.awaiting(p)),
{
    broadcast use lemma_ops_push;

}

/// `aligned` keeps what every step keeps.
pub broadcast proof fn lemma_aligned(
    c: CoreView,
    uri: Seq<char>,
    want: i64,
    paused: bool,
    np: Option<TrackView>,
    st: Option<PlayerStateView>,
)
    ensures
        kept(c, #[trigger] c.aligned(uri, want, paused, np, st)),
{
    broadcast use {lemma_ops_push, lemma_nudged, lemma_told, lemma_awaiting};

    reveal(CoreView::aligned);
}

/// `sought` keeps what every step keeps.
pub broadcast proof fn lemma_sought(c: CoreView, pos: i64, ts: i64)
    ensures
        kept(c, #[trigger] c.sought(pos, ts)),
{
    broadcast use {lemma_ops_push, lemma_told, lemma_logged};

    reveal(CoreView::sought);
}

/// `drift_asked` keeps what every step keeps.
pub broadcast proof fn lemma_drift_asked(c: CoreView, pos: i64, ts: i64)
    ensures
        kept(c, #[trigger] c.drift_asked(pos, ts)),
{
    broadcast use lemma_ops_push;

    reveal(CoreView::drift_asked);
}

/// `fed` keeps what every step keeps.
pub broadcast proof fn lemma_fed(c: CoreView, s: PlayerStateView, playing: bool)
    ensures
        kept(c, #[trigger] c.fed(s, playing)),
{
    broadcast use lemma_ops_push;

}

/// `drift_corrected` keeps what every step keeps.
pub broadcast proof fn lemma_drift_corrected(c: CoreView, want: i64, drift: nat)
    ensures
        kept(c, #[trigger] c.drift_corrected(want, drift)),
{
    broadcast use {lemma_ops_push, lemma_told, lemma_logged};

    reveal(CoreView::drift_corrected);
}

/// `drift_measured` keeps what every step keeps.
pub broadcast proof fn lemma_drift_measured(
    c: CoreView,
    pos: i64,
    ts: i64,
    st: Option<PlayerStateView>,
)
    ensures
        kept(c, #[trigger] c.drift_measured(pos, ts, st)),
{
    broadcast use {lemma_ops_push, lemma_fed, lemma_drift_corrected};

    reveal(CoreView::drift_measured);
}

/// `requested` keeps what every step keeps.
pub broadcast proof fn lemma_requested(c: CoreView, s: PlayerStateView)
    ensures
        kept(c, #[trigger] c.requested(s)),
{
    broadcast use {lemma_ops_push, lemma_sent, lemma_logged};

    reveal(CoreView::requested);
}

/// `snapped_back` keeps what every step keeps.
pub broadcast proof fn lemma_snapped_back(c: CoreView, t: TargetView, s: PlayerStateView)
    ensures
        kept(c, #[trigger] c.snapped_back(t, s)),
{
    broadcast use {lemma_ops_push, lemma_logged, lemma_applied};

    reveal(CoreView::snapped_back);
}

/// `locked` keeps what every step keeps.
pub broadcast proof fn lemma_locked(c: CoreView, st: Option<PlayerStateView>)
    ensures
        kept(c, #[trigger] c.locked(st)),
{
    broadcast use {
        lemma_ops_push,
        lemma_progressed,
        lemma_sent,
        lemma_requested,
        lemma_snapped_back,
    };

    reveal(CoreView::locked);
}

/// `requeued` keeps what every step keeps.
pub broadcast proof fn lemma_requeued(c: CoreView, q: Seq<TrackView>)
    ensures
        kept(c, #[trigger] c.requeued(q)),
{
    broadcast use {lemma_ops_push, lemma_sent};

    reveal(CoreView::requeued);
}

/// `announced` keeps what every step keeps.
pub broadcast proof fn lemma_announced(c: CoreView, s: PlayerStateView, pos: Option<int>)
    ensures
        kept(c, #[trigger] c.announced(s, pos)),
{
    broadcast use {lemma_ops_push, lemma_sent};

    reveal(CoreView::announced);
}

/// `broadcast` keeps what every step keeps.
pub broadcast proof fn lemma_broadcast(c: CoreView, s: PlayerStateView)
    ensures
        kept(c, #[trigger] c.broadcast(s)),
{
    broadcast use {lemma_ops_push, lemma_fed, lemma_announced};

}

/// `welcomed` keeps what every step keeps.
pub broadcast proof fn lemma_welcomed(c: CoreView, name: Seq<char>, st: Option<PlayerStateView>)
    ensures
        kept(c, #[trigger] c.welcomed(name, st)),
{
    broadcast use {lemma_ops_push, lemma_fed, lemma_sent, lemma_announced, lemma_logged};

    reveal(CoreView::welcomed);
}

/// `synced` keeps what every step keeps.
pub broadcast proof fn lemma_synced(c: CoreView, st: Option<PlayerStateView>)
    ensures
        kept(c, #[trigger] c.synced(st)),
{
    broadcast use {lemma_ops_push, lemma_broadcast};

    reveal(CoreView::synced);
}

/// `enqueued` keeps what every step keeps.
pub broadcast proof fn lemma_enqueued(c: CoreView, t: TrackView, who: Seq<char>, owned: bool)
    ensures
        kept(c, #[trigger] c.enqueued(t, who, owned)),
{
    broadcast use {lemma_ops_push, lemma_logged, lemma_requeued};

    reveal(CoreView::enqueued);
}

/// `offered` keeps what every step keeps.
pub broadcast proof fn lemma_offered(c: CoreView, t: TrackView, who: Seq<char>)
    ensures
        kept(c, #[trigger] c.offered(t, who)),
{
    broadcast use {lemma_ops_push, lemma_enqueued};

    reveal(CoreView::offered);
}

/// `served` keeps what every step keeps.
pub broadcast proof fn lemma_served(c: CoreView, t: TrackView, purpose: PurposeView)
    ensures
        kept(c, #[trigger] c.served(t, purpose)),
{
    broadcast use {lemma_ops_push, lemma_offered, lemma_logged, lemma_told};

    reveal(CoreView::served);
}

/// `looked_up` keeps what every step keeps.
pub broadcast proof fn lemma_looked_up(c: CoreView, t: TrackView, purpose: PurposeView)
    ensures
        kept(c, #[trigger] c.looked_up(t, purpose)),
{
    broadcast use {lemma_ops_push, lemma_served};

    reveal(CoreView::looked_up);
}

/// `described` keeps what every step keeps.
pub broadcast proof fn lemma_described(c: CoreView, t: TrackView, v: JsonView, purpose: PurposeView)
    ensures
        kept(c, #[trigger] c.described(t, v, purpose)),
{
    broadcast use {lemma_ops_push, lemma_served};

    reveal(CoreView::described);
}

/// `lookup_failed` keeps what every step keeps.
pub broadcast proof fn lemma_lookup_failed(
    c: CoreView,
    t: TrackView,
    problem: Seq<char>,
    purpose: PurposeView,
)
    ensures
        kept(c, #[trigger] c.lookup_failed(t, problem, purpose)),
{
    broadcast use {lemma_ops_push, lemma_logged};

    reveal(CoreView::lookup_failed);
}

/// `looked_up_again` keeps what every step keeps.
pub broadcast proof fn lemma_looked_up_again(
    c: CoreView,
    t: TrackView,
    v: Option<JsonView>,
    purpose: PurposeView,
)
    ensures
        kept(c, #[trigger] c.looked_up_again(t, v, purpose)),
{
    broadcast use {lemma_ops_push, lemma_logged, lemma_described, lemma_served};

    reveal(CoreView::looked_up_again);
}

/// `played_next` keeps what every step keeps.
pub broadcast proof fn lemma_played_next(c: CoreView)
    ensures
        kept(c, #[trigger] c.played_next()),
{
    broadcast use {lemma_ops_push, lemma_logged, lemma_told, lemma_requeued};

    reveal(CoreView::played_next);
}

/// `queue_started` keeps what every step keeps.
pub broadcast proof fn lemma_queue_started(c: CoreView, st: Option<PlayerStateView>)
    ensures
        kept(c, #[trigger] c.queue_started(st)),
{
    broadcast use {lemma_ops_push, lemma_played_next};

    reveal(CoreView::queue_started);
}

/// `skipped` keeps what every step keeps.
pub broadcast proof fn lemma_skipped(c: CoreView)
    ensures
        kept(c, #[trigger] c.skipped()),
{
    broadcast use {lemma_ops_push, lemma_told, lemma_played_next};

    reveal(CoreView::skipped);
}

/// `showing` keeps what every step keeps.
pub broadcast proof fn lemma_showing(c: CoreView, s: PlayerStateView)
    ensures
        kept(c, #[trigger] c.showing(s)),
{
    broadcast use lemma_ops_push;

}

/// `begun` keeps what every step keeps.
pub broadcast proof fn lemma_begun(c: CoreView, s: PlayerStateView)
    ensures
        kept(c, #[trigger] c.begun(s)),
{
    broadcast use {lemma_ops_push, lemma_announced, lemma_showing};

    reveal(CoreView::begun);
}

/// `drained` keeps what every step keeps.
pub broadcast proof fn lemma_drained(c: CoreView, s: PlayerStateView)
    ensures
        kept(c, #[trigger] c.drained(s)),
{
    broadcast use {lemma_ops_push, lemma_requeued};

    reveal(CoreView::drained);
}

/// `completed` keeps what every step keeps.
pub broadcast proof fn lemma_completed(c: CoreView, s: PlayerStateView)
    ensures
        kept(c, #[trigger] c.completed(s)),
{
    broadcast use {lemma_ops_push, lemma_requeued};

    reveal(CoreView::completed);
}

/// `changed` keeps what every step keeps.
pub broadcast proof fn lemma_changed(c: CoreView, s: PlayerStateView, rekey: bool)
    ensures
        kept(c, #[trigger] c.changed(s, rekey)),
{
    broadcast use {
        lemma_ops_push,
        lemma_broadcast,
        lemma_showing,
        lemma_sent,
        lemma_begun,
        lemma_drained,
        lemma_completed,
    };

    reveal(CoreView::changed);
}

/// `toggled` keeps what every step keeps.
pub broadcast proof fn lemma_toggled(c: CoreView, s: PlayerStateView)
    ensures
        kept(c, #[trigger] c.toggled(s)),
{
    broadcast use {lemma_ops_push, lemma_broadcast, lemma_sent};

    reveal(CoreView::toggled);
}

/// `noted` keeps what every step keeps.
pub broadcast proof fn lemma_noted(c: CoreView, s: PlayerStateView)
    ensures
        kept(c, #[trigger] c.noted(s)),
{
    broadcast use lemma_ops_push;

    reveal(CoreView::noted);
}

/// `shown` keeps what every step keeps.
pub broadcast proof fn lemma_shown(c: CoreView, s: PlayerStateView, new_song: bool)
    ensures
        kept(c, #[trigger] c.shown(s, new_song)),
{
    broadcast use {lemma_ops_push, lemma_fed};

    reveal(CoreView::shown);
}

/// `watched` keeps what every step keeps.
pub broadcast proof fn lemma_watched(c: CoreView, s: PlayerStateView)
    ensures
        kept(c, #[trigger] c.watched(s)),
{
    broadcast use {lemma_ops_push, lemma_noted, lemma_changed, lemma_toggled, lemma_shown};

    reveal(CoreView::watched);
}

/// `position_sent` keeps what every step keeps.
pub broadcast proof fn lemma_position_sent(c: CoreView, st: Option<PlayerStateView>)
    ensures
        kept(c, #[trigger] c.position_sent(st)),
{
    broadcast use {lemma_ops_push, lemma_fed, lemma_sent};

    reveal(CoreView::position_sent);
}

/// `pause_asserted` keeps what every step keeps.
pub broadcast proof fn lemma_pause_asserted(c: CoreView, st: Option<PlayerStateView>)
    ensures
        kept(c, #[trigger] c.pause_asserted(st)),
{
    broadcast use {lemma_ops_push, lemma_sent};

    reveal(CoreView::pause_asserted);
}

/// `adopted` keeps what every step keeps.
pub broadcast proof fn lemma_adopted(c: CoreView, st: Option<PlayerStateView>)
    ensures
        kept(c, #[trigger] c.adopted(st)),
{
    broadcast use lemma_ops_push;

    reveal(CoreView::adopted);
}

/// `booted` keeps what every step keeps.
pub broadcast proof fn lemma_booted(c: CoreView, st: Option<PlayerStateView>)
    ensures
        kept(c, #[trigger] c.booted(st)),
{
    broadcast use lemma_ops_push;

    reveal(CoreView::booted);
}

/// `based` keeps what every step keeps.
pub broadcast proof fn lemma_based(c: CoreView, st: Option<PlayerStateView>)
    ensures
        kept(c, #[trigger] c.based(st)),
{
    broadcast use lemma_ops_push;

    reveal(CoreView::based);
}

/// `session_named` keeps what every step keeps.
pub broadcast proof fn lemma_session_named(
    c: CoreView,
    code: Seq<char>,
    name: Seq<char>,
    d: DrawnView,
)
    ensures
        kept(c, #[trigger] c.session_named(code, name, d)),
{
    broadcast use lemma_ops_push;

    reveal(CoreView::session_named);
}

/// `session_started` keeps what every step keeps.
pub broadcast proof fn lemma_session_started(
    c: CoreView,
    host: bool,
    code: Seq<char>,
    name: Seq<char>,
    d: DrawnView,
)
    ensures
        kept(c, #[trigger] c.session_started(host, code, name, d)),
{
    broadcast use {lemma_ops_push, lemma_left_quietly, lemma_session_named};

    reveal(CoreView::session_started);
}

/// `session_connected` keeps what every step keeps.
pub broadcast proof fn lemma_session_connected(
    c: CoreView,
    code: Seq<char>,
    r: Result<(), Seq<char>>,
)
    ensures
        kept(c, #[trigger] c.session_connected(code, r)),
{
    broadcast use {lemma_ops_push, lemma_logged};

    reveal(CoreView::session_connected);
}

/// `left` keeps what every step keeps.
pub broadcast proof fn lemma_left(c: CoreView)
    ensures
        kept(c, #[trigger] c.left()),
{
    broadcast use {lemma_ops_push, lemma_left_quietly, lemma_logged};

    reveal(CoreView::left);
}

/// `swapped` keeps what every step keeps.
pub broadcast proof fn lemma_swapped(c: CoreView, r: Result<Seq<char>, Seq<char>>)
    ensures
        kept(c, #[trigger] c.swapped(r)),
{
    broadcast use {lemma_ops_push, lemma_logged};

    reveal(CoreView::swapped);
}

/// `swap_adopted` keeps what every step keeps.
pub broadcast proof fn lemma_swap_adopted(c: CoreView, st: Option<PlayerStateView>)
    ensures
        kept(c, #[trigger] c.swap_adopted(st)),
{
    broadcast use {lemma_ops_push, lemma_adopted};

    reveal(CoreView::swap_adopted);
}

/// `swap_based` keeps what every step keeps.
pub broadcast proof fn lemma_swap_based(c: CoreView, st: Option<PlayerStateView>)
    ensures
        kept(c, #[trigger] c.swap_based(st)),
{
    broadcast use {lemma_ops_push, lemma_based, lemma_logged};

    reveal(CoreView::swap_based);
}

/// `swap_told` keeps what every step keeps.
pub broadcast proof fn lemma_swap_told(c: CoreView, st: Option<PlayerStateView>)
    ensures
        kept(c, #[trigger] c.swap_told(st)),
{
    broadcast use {lemma_ops_push, lemma_broadcast};

    reveal(CoreView::swap_told);
}

/// `tuned` keeps what every step keeps.
pub broadcast proof fn lemma_tuned(c: CoreView, enabled: bool, deadband_us: i64, jump_us: i64)
    ensures
        kept(c, #[trigger] c.tuned(enabled, deadband_us, jump_us)),
{
    broadcast use {lemma_ops_push, lemma_logged};

    reveal(CoreView::tuned);
}

/// `controlled` keeps what every step keeps.
pub broadcast proof fn lemma_controlled(c: CoreView, op: PlayerOpView, a: Seq<char>)
    ensures
        kept(c, #[trigger] c.controlled(op, a)),
{
    broadcast use {lemma_ops_push, lemma_told, lemma_sent};

    reveal(CoreView::controlled);
}

/// `advanced` keeps what every step keeps.
pub broadcast proof fn lemma_advanced(c: CoreView)
    ensures
        kept(c, #[trigger] c.advanced()),
{
    broadcast use {lemma_ops_push, lemma_skipped, lemma_sent};

    reveal(CoreView::advanced);
}

/// `permitted` keeps what every step keeps.
pub broadcast proof fn lemma_permitted(c: CoreView, v: bool)
    ensures
        kept(c, #[trigger] c.permitted(v)),
{
    broadcast use {lemma_ops_push, lemma_sent, lemma_logged};

    reveal(CoreView::permitted);
}

/// `sync_requested` keeps what every step keeps.
pub broadcast proof fn lemma_sync_requested(c: CoreView)
    ensures
        kept(c, #[trigger] c.sync_requested()),
{
    broadcast use {lemma_ops_push, lemma_sent, lemma_logged};

    reveal(CoreView::sync_requested);
}

/// `song_added` keeps what every step keeps.
pub broadcast proof fn lemma_song_added(c: CoreView, uri: Seq<char>)
    ensures
        kept(c, #[trigger] c.song_added(uri)),
{
    broadcast use {lemma_ops_push, lemma_sent, lemma_logged};

    reveal(CoreView::song_added);
}

/// `hosted` keeps what every step keeps.
pub broadcast proof fn lemma_hosted(
    c: CoreView,
    name: Seq<char>,
    gc: bool,
    code: Option<Seq<char>>,
    d: DrawnView,
)
    ensures
        kept(c, #[trigger] c.hosted(name, gc, code, d)),
{
    broadcast use {lemma_ops_push, lemma_left_quietly};

    reveal(CoreView::hosted);
    reveal(CoreView::session_started);
    reveal(CoreView::session_named);
}

/// `commanded` keeps what every step keeps.
pub broadcast proof fn lemma_commanded(c: CoreView, cmd: UiCmdView, d: DrawnView)
    ensures
        kept(c, #[trigger] c.commanded(cmd, d)),
{
    broadcast use {
        lemma_ops_push,
        lemma_session_started,
        lemma_hosted,
        lemma_tuned,
        lemma_permitted,
        lemma_left,
        lemma_controlled,
        lemma_advanced,
        lemma_sync_requested,
        lemma_song_added,
    };

}

/// `song_introduced` keeps what every step keeps.
pub broadcast proof fn lemma_song_introduced(c: CoreView, n: JsonView)
    ensures
        kept(c, #[trigger] c.song_introduced(n)),
{
    broadcast use lemma_ops_push;

    reveal(CoreView::song_introduced);
}

/// `host_introduced` keeps what every step keeps.
pub broadcast proof fn lemma_host_introduced(c: CoreView, n: JsonView)
    ensures
        kept(c, #[trigger] c.host_introduced(n)),
{
    broadcast use {lemma_ops_push, lemma_logged};

    reveal(CoreView::host_introduced);
}

/// `introduced` keeps what every step keeps.
pub broadcast proof fn lemma_introduced(c: CoreView, n: JsonView)
    ensures
        kept(c, #[trigger] c.introduced(n)),
{
    broadcast use {lemma_ops_push, lemma_song_introduced, lemma_host_introduced};

    reveal(CoreView::introduced);
}

/// `play_received` keeps what every step keeps.
pub broadcast proof fn lemma_play_received(c: CoreView, n: JsonView)
    ensures
        kept(c, #[trigger] c.play_received(n)),
{
    broadcast use {lemma_ops_push, lemma_applied};

    reveal(CoreView::play_received);
}

/// `pause_received` keeps what every step keeps.
pub broadcast proof fn lemma_pause_received(c: CoreView)
    ensures
        kept(c, #[trigger] c.pause_received()),
{
    broadcast use {lemma_ops_push, lemma_told};

    reveal(CoreView::pause_received);
}

/// `play_state_received` keeps what every step keeps.
pub broadcast proof fn lemma_play_state_received(c: CoreView, n: JsonView)
    ensures
        kept(c, #[trigger] c.play_state_received(n)),
{
    broadcast use lemma_ops_push;

    reveal(CoreView::play_state_received);
}

/// `tick_received` keeps what every step keeps.
pub broadcast proof fn lemma_tick_received(c: CoreView, n: JsonView)
    ensures
        kept(c, #[trigger] c.tick_received(n)),
{
    broadcast use {lemma_ops_push, lemma_drift_asked};

    reveal(CoreView::tick_received);
}

/// `pong_received` keeps what every step keeps.
pub broadcast proof fn lemma_pong_received(c: CoreView, n: JsonView)
    ensures
        kept(c, #[trigger] c.pong_received(n)),
{
    broadcast use lemma_ops_push;

    reveal(CoreView::pong_received);
}

/// `members_received` keeps what every step keeps.
pub broadcast proof fn lemma_members_received(c: CoreView, n: JsonView)
    ensures
        kept(c, #[trigger] c.members_received(n)),
{
    broadcast use lemma_ops_push;

    reveal(CoreView::members_received);
}

/// `permission_received` keeps what every step keeps.
pub broadcast proof fn lemma_permission_received(c: CoreView, n: JsonView)
    ensures
        kept(c, #[trigger] c.permission_received(n)),
{
    broadcast use {lemma_ops_push, lemma_logged};

    reveal(CoreView::permission_received);
}

/// `queue_received` keeps what every step keeps.
pub broadcast proof fn lemma_queue_received(c: CoreView, n: JsonView)
    ensures
        kept(c, #[trigger] c.queue_received(n)),
{
    broadcast use lemma_ops_push;

    reveal(CoreView::queue_received);
}

/// `kicked` keeps what every step keeps.
pub broadcast proof fn lemma_kicked(c: CoreView)
    ensures
        kept(c, #[trigger] c.kicked()),
{
    broadcast use {lemma_ops_push, lemma_logged, lemma_left};

    reveal(CoreView::kicked);
}

/// `join_received` keeps what every step keeps.
pub broadcast proof fn lemma_join_received(c: CoreView, n: JsonView)
    ensures
        kept(c, #[trigger] c.join_received(n)),
{
    broadcast use lemma_ops_push;

    reveal(CoreView::join_received);
}

/// `ping_received` keeps what every step keeps.
pub broadcast proof fn lemma_ping_received(c: CoreView, n: JsonView)
    ensures
        kept(c, #[trigger] c.ping_received(n)),
{
    broadcast use {lemma_ops_push, lemma_sent};

    reveal(CoreView::ping_received);
}

/// `add_received` keeps what every step keeps.
pub broadcast proof fn lemma_add_received(c: CoreView, n: JsonView)
    ensures
        kept(c, #[trigger] c.add_received(n)),
{
    broadcast use {lemma_ops_push, lemma_looked_up};

    reveal(CoreView::add_received);
}

/// `remove_received` keeps what every step keeps.
pub broadcast proof fn lemma_remove_received(c: CoreView, n: JsonView)
    ensures
        kept(c, #[trigger] c.remove_received(n)),
{
    broadcast use {lemma_ops_push, lemma_requeued};

    reveal(CoreView::remove_received);
}

/// `move_received` keeps what every step keeps.
pub broadcast proof fn lemma_move_received(c: CoreView, n: JsonView)
    ensures
        kept(c, #[trigger] c.move_received(n)),
{
    broadcast use {lemma_ops_push, lemma_requeued};

    reveal(CoreView::move_received);
}

/// `command_received` keeps what every step keeps.
pub broadcast proof fn lemma_command_received(c: CoreView, n: JsonView)
    ensures
        kept(c, #[trigger] c.command_received(n)),
{
    broadcast use {lemma_ops_push, lemma_logged, lemma_told, lemma_looked_up, lemma_skipped};

    reveal(CoreView::command_received);
}

/// `request_received` keeps what every step keeps.
pub broadcast proof fn lemma_request_received(c: CoreView, kind: Seq<char>, n: JsonView)
    ensures
        kept(c, #[trigger] c.request_received(kind, n)),
{
    broadcast use {
        lemma_ops_push,
        lemma_join_received,
        lemma_add_received,
        lemma_remove_received,
        lemma_move_received,
        lemma_command_received,
    };

}

/// `jam_received` keeps what every step keeps.
pub broadcast proof fn lemma_jam_received(c: CoreView, n: JsonView)
    ensures
        kept(c, #[trigger] c.jam_received(n)),
{
    broadcast use {
        lemma_ops_push,
        lemma_introduced,
        lemma_play_received,
        lemma_pause_received,
        lemma_play_state_received,
        lemma_sought,
        lemma_tick_received,
        lemma_pong_received,
        lemma_members_received,
        lemma_permission_received,
        lemma_queue_received,
        lemma_kicked,
        lemma_ping_received,
        lemma_request_received,
    };

}

/// `registered` keeps what every step keeps.
pub broadcast proof fn lemma_registered(c: CoreView, d: DrawnView)
    ensures
        kept(c, #[trigger] c.registered(d)),
{
    broadcast use {lemma_ops_push, lemma_logged};

    reveal(CoreView::registered);
}

/// `offer_made` keeps what every step keeps.
pub broadcast proof fn lemma_offer_made(c: CoreView, id: Seq<char>, r: OfferedView)
    ensures
        kept(c, #[trigger] c.offer_made(id, r)),
{
    broadcast use {lemma_ops_push, lemma_logged};

    reveal(CoreView::offer_made);
}

/// `answer_made` keeps what every step keeps.
pub broadcast proof fn lemma_answer_made(c: CoreView, id: Seq<char>, r: AnsweredView)
    ensures
        kept(c, #[trigger] c.answer_made(id, r)),
{
    broadcast use {lemma_ops_push, lemma_logged};

    reveal(CoreView::answer_made);
}

/// `answer_accepted` keeps what every step keeps.
pub broadcast proof fn lemma_answer_accepted(c: CoreView, r: Result<(), Seq<char>>)
    ensures
        kept(c, #[trigger] c.answer_accepted(r)),
{
    broadcast use {lemma_ops_push, lemma_logged};

    reveal(CoreView::answer_accepted);
}

/// `channel_taken` keeps what every step keeps.
pub broadcast proof fn lemma_channel_taken(c: CoreView, there: bool)
    ensures
        kept(c, #[trigger] c.channel_taken(there)),
{
    broadcast use lemma_ops_push;

    reveal(CoreView::channel_taken);
}

/// `signal_lost` keeps what every step keeps.
pub broadcast proof fn lemma_signal_lost(c: CoreView)
    ensures
        kept(c, #[trigger] c.signal_lost()),
{
    broadcast use {lemma_ops_push, lemma_logged};

    reveal(CoreView::signal_lost);
}

/// `described_to_peer` keeps what every step keeps.
pub broadcast proof fn lemma_described_to_peer(c: CoreView, sdp: JsonView)
    ensures
        kept(c, #[trigger] c.described_to_peer(sdp)),
{
    broadcast use {lemma_ops_push, lemma_signalled, lemma_logged};

    reveal(CoreView::described_to_peer);
}

/// `candidate_to_peer` keeps what every step keeps.
pub broadcast proof fn lemma_candidate_to_peer(c: CoreView, candidate: Seq<char>, mid: Seq<char>)
    ensures
        kept(c, #[trigger] c.candidate_to_peer(candidate, mid)),
{
    broadcast use {lemma_ops_push, lemma_signalled};

    reveal(CoreView::candidate_to_peer);
}

/// `channel_opened` keeps what every step keeps.
pub broadcast proof fn lemma_channel_opened(c: CoreView)
    ensures
        kept(c, #[trigger] c.channel_opened()),
{
    broadcast use {lemma_ops_push, lemma_logged, lemma_sent};

    reveal(CoreView::channel_opened);
}

/// `frame_received` keeps what every step keeps.
pub broadcast proof fn lemma_frame_received(c: CoreView, b: Seq<u8>)
    ensures
        kept(c, #[trigger] c.frame_received(b)),
{
    broadcast use {lemma_ops_push, lemma_jam_received};

    reveal(CoreView::frame_received);
}

/// `guest_gone` keeps what every step keeps.
pub broadcast proof fn lemma_guest_gone(c: CoreView, forget: bool)
    ensures
        kept(c, #[trigger] c.guest_gone(forget)),
{
    broadcast use {lemma_ops_push, lemma_logged, lemma_peerless};

    reveal(CoreView::guest_gone);
}

/// `failed` keeps what every step keeps.
pub broadcast proof fn lemma_failed(c: CoreView, error: Seq<char>)
    ensures
        kept(c, #[trigger] c.failed(error)),
{
    broadcast use lemma_ops_push;

}

/// `channel_closed` keeps what every step keeps.
pub broadcast proof fn lemma_channel_closed(c: CoreView)
    ensures
        kept(c, #[trigger] c.channel_closed()),
{
    broadcast use {
        lemma_ops_push,
        lemma_guest_gone,
        lemma_peerless,
        lemma_failed,
        lemma_logged,
        lemma_left_quietly,
        lemma_unsignalled,
    };

    reveal(CoreView::channel_closed);
}

/// `peer_failed` keeps what every step keeps.
pub broadcast proof fn lemma_peer_failed(c: CoreView, e: Seq<char>)
    ensures
        kept(c, #[trigger] c.peer_failed(e)),
{
    broadcast use {lemma_ops_push, lemma_logged, lemma_failed, lemma_left_quietly};

    reveal(CoreView::peer_failed);
}

/// `offer_received` keeps what every step keeps.
pub broadcast proof fn lemma_offer_received(c: CoreView, v: JsonView)
    ensures
        kept(c, #[trigger] c.offer_received(v)),
{
    broadcast use {lemma_ops_push, lemma_logged};

    reveal(CoreView::offer_received);
}

/// `answer_received` keeps what every step keeps.
pub broadcast proof fn lemma_answer_received(c: CoreView, v: JsonView)
    ensures
        kept(c, #[trigger] c.answer_received(v)),
{
    broadcast use lemma_ops_push;

    reveal(CoreView::answer_received);
}

/// `candidate_received` keeps what every step keeps.
pub broadcast proof fn lemma_candidate_received(c: CoreView, v: JsonView)
    ensures
        kept(c, #[trigger] c.candidate_received(v)),
{
    broadcast use lemma_ops_push;

    reveal(CoreView::candidate_received);
}

/// `leave_received` keeps what every step keeps.
pub broadcast proof fn lemma_leave_received(c: CoreView, v: JsonView)
    ensures
        kept(c, #[trigger] c.leave_received(v)),
{
    broadcast use {lemma_ops_push, lemma_guest_gone};

    reveal(CoreView::leave_received);
}

/// `code_taken` keeps what every step keeps.
pub broadcast proof fn lemma_code_taken(c: CoreView, d: DrawnView)
    ensures
        kept(c, #[trigger] c.code_taken(d)),
{
    broadcast use {lemma_ops_push, lemma_logged, lemma_session_started};

    reveal(CoreView::code_taken);
}

/// `signal_received` keeps what every step keeps.
pub broadcast proof fn lemma_signal_received(c: CoreView, v: JsonView, d: DrawnView)
    ensures
        kept(c, #[trigger] c.signal_received(v, d)),
{
    broadcast use {
        lemma_ops_push,
        lemma_code_taken,
        lemma_logged,
        lemma_offer_received,
        lemma_answer_received,
        lemma_candidate_received,
        lemma_leave_received,
    };

}

/// `notified` keeps what every step keeps.
pub broadcast proof fn lemma_notified(c: CoreView, ev: CoreEventView, d: DrawnView)
    ensures
        kept(c, #[trigger] c.notified(ev, d)),
{
    broadcast use {
        lemma_ops_push,
        lemma_logged,
        lemma_registered,
        lemma_signal_received,
        lemma_signal_lost,
        lemma_channel_opened,
        lemma_frame_received,
        lemma_channel_closed,
        lemma_described_to_peer,
        lemma_candidate_to_peer,
        lemma_peer_failed,
    };

}

/// `join_watched` keeps what every step keeps.
pub broadcast proof fn lemma_join_watched(c: CoreView)
    ensures
        kept(c, #[trigger] c.join_watched()),
{
    broadcast use {lemma_ops_push, lemma_left_quietly, lemma_logged};

    reveal(CoreView::join_watched);
}

/// `ping_ticked` keeps what every step keeps.
pub broadcast proof fn lemma_ping_ticked(c: CoreView)
    ensures
        kept(c, #[trigger] c.ping_ticked()),
{
    broadcast use {lemma_ops_push, lemma_sent};

    reveal(CoreView::ping_ticked);
}

/// `sync_ticked` keeps what every step keeps.
pub broadcast proof fn lemma_sync_ticked(c: CoreView)
    ensures
        kept(c, #[trigger] c.sync_ticked()),
{
    broadcast use {lemma_ops_push, lemma_sent};

    reveal(CoreView::sync_ticked);
}

/// `lock_ticked` keeps what every step keeps.
pub broadcast proof fn lemma_lock_ticked(c: CoreView)
    ensures
        kept(c, #[trigger] c.lock_ticked()),
{
    broadcast use {lemma_ops_push, lemma_progressed};

    reveal(CoreView::lock_ticked);
}

/// `pause_ticked` keeps what every step keeps.
pub broadcast proof fn lemma_pause_ticked(c: CoreView)
    ensures
        kept(c, #[trigger] c.pause_ticked()),
{
    broadcast use lemma_ops_push;

    reveal(CoreView::pause_ticked);
}

/// `position_ticked` keeps what every step keeps.
pub broadcast proof fn lemma_position_ticked(c: CoreView)
    ensures
        kept(c, #[trigger] c.position_ticked()),
{
    broadcast use {lemma_ops_push, lemma_pause_ticked};

    reveal(CoreView::position_ticked);
}

/// `watch_ticked` keeps what every step keeps.
pub broadcast proof fn lemma_watch_ticked(c: CoreView)
    ensures
        kept(c, #[trigger] c.watch_ticked()),
{
    broadcast use {lemma_ops_push, lemma_position_ticked};

    reveal(CoreView::watch_ticked);
}

/// `mode_ticked` keeps what every step keeps.
pub broadcast proof fn lemma_mode_ticked(c: CoreView, mode: Mode)
    ensures
        kept(c, #[trigger] c.mode_ticked(mode)),
{
    broadcast use {
        lemma_ops_push,
        lemma_ping_ticked,
        lemma_sync_ticked,
        lemma_lock_ticked,
        lemma_watch_ticked,
    };

    reveal(CoreView::mode_ticked);
}

/// `pending_ticked` keeps what every step keeps.
pub broadcast proof fn lemma_pending_ticked(c: CoreView, mode: Mode)
    ensures
        kept(c, #[trigger] c.pending_ticked(mode)),
{
    broadcast use {lemma_ops_push, lemma_mode_ticked};

    reveal(CoreView::pending_ticked);
}

/// `reconnect_ticked` keeps what every step keeps.
pub broadcast proof fn lemma_reconnect_ticked(c: CoreView, mode: Mode, d: DrawnView)
    ensures
        kept(c, #[trigger] c.reconnect_ticked(mode, d)),
{
    broadcast use {lemma_ops_push, lemma_pending_ticked};

    reveal(CoreView::reconnect_ticked);
}

/// `reconnected` keeps what every step keeps.
pub broadcast proof fn lemma_reconnected(
    c: CoreView,
    id: Seq<char>,
    mode: Mode,
    r: Result<(), Seq<char>>,
)
    ensures
        kept(c, #[trigger] c.reconnected(id, mode, r)),
{
    broadcast use {lemma_ops_push, lemma_logged, lemma_pending_ticked};

    reveal(CoreView::reconnected);
}

/// `pending_made` keeps what every step keeps.
pub broadcast proof fn lemma_pending_made(c: CoreView, st: Option<PlayerStateView>)
    ensures
        kept(c, #[trigger] c.pending_made(st)),
{
    broadcast use {lemma_ops_push, lemma_told};

    reveal(CoreView::pending_made);
}

/// `watch_done` keeps what every step keeps.
pub broadcast proof fn lemma_watch_done(c: CoreView, st: Option<PlayerStateView>)
    ensures
        kept(c, #[trigger] c.watch_done(st)),
{
    broadcast use {lemma_ops_push, lemma_watched, lemma_position_ticked};

    reveal(CoreView::watch_done);
}

/// `ticked` keeps what every step keeps.
pub broadcast proof fn lemma_ticked(c: CoreView, d: DrawnView)
    ensures
        kept(c, #[trigger] c.ticked(d)),
{
    broadcast use {lemma_ops_push, lemma_join_watched, lemma_reconnect_ticked};

}

/// `player_known` keeps what every step keeps.
pub broadcast proof fn lemma_player_known(
    c: CoreView,
    k: ContView,
    st: Option<PlayerStateView>,
    d: DrawnView,
)
    requires
        c.dry_run ==> !(k is Enqueue),
    ensures
        kept(c, #[trigger] c.player_known(k, st, d)),
{
    broadcast use {
        lemma_ops_push,
        lemma_booted,
        lemma_swap_adopted,
        lemma_swap_based,
        lemma_swap_told,
        lemma_based,
        lemma_session_named,
        lemma_adopted,
        lemma_welcomed,
        lemma_synced,
        lemma_queue_started,
        lemma_aligned,
        lemma_resumed_tick,
        lemma_drift_measured,
        lemma_pending_made,
        lemma_mode_ticked,
        lemma_locked,
        lemma_watch_done,
        lemma_position_sent,
        lemma_pause_ticked,
        lemma_pause_asserted,
    };

}

/// `answered` keeps what every step keeps.
pub broadcast proof fn lemma_answered(c: CoreView, a: AnswerView, d: DrawnView)
    ensures
        kept(c, #[trigger] c.answered(a, d)),
{
    broadcast use {
        lemma_ops_push,
        lemma_swapped,
        lemma_session_connected,
        lemma_reconnected,
        lemma_offer_made,
        lemma_answer_made,
        lemma_answer_accepted,
        lemma_channel_taken,
        lemma_described,
        lemma_lookup_failed,
        lemma_looked_up_again,
        lemma_enqueued,
        lemma_player_known,
    };

}

} // verus!
