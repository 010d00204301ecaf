//! What a host does for its guest.
use super::delivery::{
    law_guest_controls_arrive, law_init_arrives, law_members_arrive, lemma_guest_controls_fields,
    lemma_kind_add_q, lemma_kind_cmd, lemma_kind_join, lemma_kind_move_q, lemma_kind_rm_q,
    lemma_play_fields, lemma_sync_tick_fields,
};
use super::hosting::cached;
use super::keeping::{lemma_messages_push, lemma_ops_push, messages, player_ops};
use super::resume::{AnswerView, FetchErrorView, QuestionView};
use super::{
    ActionView, ContView, CoreView, DrawnView, Mode, PlayerOpView, PurposeView, SharedView,
    TargetView, Timers, TitleView, UiCmdView, WhoView,
};
use crate::binary64::law_position_survives_the_wire;
use crate::clock::stamp_of;
use crate::json::JsonView;
use crate::messages::{
    add_to_queue_json, command_json, init_json, members_json, play_json, play_state_json,
    queue_message_json, typed,
};
use crate::player::PlayerStateView;
use crate::position::read_position;
use crate::text::{begins, dec_signed};
use crate::track::{
    backfilled, law_place_is_the_first, law_removing_keeps_the_order, MemberView, TrackView,
};
use vstd::prelude::*;

verus! {

/// A host whose player plays tells the guest where it is: one `SYNC_TICK` is sent, with the
/// position to go by and the present time, and nothing else is done.
pub proof fn law_host_tells_where_it_is(c: CoreView, s: PlayerStateView, d: DrawnView)
    requires
        c.waiting == Some(ContView::Tick),
        c.peer matches Some(p) && p.channel,
        s.playing,
        s.uri.len() > 0 || s.title.len() > 0,
    ensures
        ({
            let r = c.answered(AnswerView::Player(Some(s)), d);
            let pos = read_position(c.pos, c.clock.steady_ns, s.position_us, true);
            let m = messages(r.out).last();
            &&& messages(r.out) == messages(c.out).push(m)
            &&& r.out.len() == c.out.len() + 1
            &&& m.text_at("type"@) == Some("SYNC_TICK"@)
            &&& m.int_at("ts"@) == Some(stamp_of(c.clock))
            &&& -0x10_0000_0000_0000 <= pos <= 0x10_0000_0000_0000 ==> m.scaled_at("pos"@, 1000)
                == Some(pos as int)
            &&& c.pos.anchor_at is None ==> pos == s.position_us
        }),
{
    broadcast use {lemma_messages_push, lemma_ops_push};

    let pos = read_position(c.pos, c.clock.steady_ns, s.position_us, true);
    lemma_sync_tick_fields(pos as int, stamp_of(c.clock) as int);
    if -0x10_0000_0000_0000 <= pos <= 0x10_0000_0000_0000 {
        law_position_survives_the_wire(pos as int);
    }
    reveal(CoreView::position_sent);
    reveal(CoreView::pause_ticked);
}

/// A guest that joins knows what the host knows: once it has dealt with what it was welcomed
/// with, its queue is the host's, and so are the permission, the host's name, the song, the
/// position, the duration and whether the song plays.
#[verifier::spinoff_prover]
#[verifier::rlimit(40)]
pub proof fn law_guest_is_told_all_when_it_joins(
    c: CoreView,
    g: CoreView,
    name: Seq<char>,
    st: Option<PlayerStateView>,
    d: DrawnView,
)
    requires
        c.waiting == Some(ContView::Join { name }),
        c.peer matches Some(p) && p.channel,
        st matches Some(s) ==> {
            let pos = read_position(c.pos, c.clock.steady_ns, s.position_us, s.playing);
            &&& -0x10_0000_0000_0000 <= pos <= 0x10_0000_0000_0000
            &&& -0x10_0000_0000_0000 <= s.duration_us <= 0x10_0000_0000_0000
        },
    ensures
        ({
            let r = c.answered(AnswerView::Player(st), d);
            let n = messages(c.out).len() as int;
            let got = messages(r.out);
            let e = g.jam_received(got[n]);
            &&& got.len() == n + if st is Some {
                3int
            } else {
                2
            }
            &&& got.take(n) == messages(c.out)
            &&& player_ops(r.out) == player_ops(c.out)
            &&& e.queue == c.queue
            &&& e.shared.queue == c.queue
            &&& e.who.gc == c.who.gc
            &&& e.shared.gc == c.who.gc
            &&& e.who.host_name == c.shared.display_name
            &&& e.shared.host_name == c.shared.display_name
            &&& e.shared.connected
            &&& match st {
                Some(s) => {
                    let pos = read_position(c.pos, c.clock.steady_ns, s.position_us, s.playing);
                    &&& e.shared.now_playing == Some(
                        TrackView {
                            uri: s.uri,
                            title: s.title,
                            artist: s.artist,
                            art_url: s.art_url,
                        },
                    )
                    &&& e.shared.progress_us == pos
                    &&& e.shared.duration_us == s.duration_us
                    &&& e.shared.playing == s.playing
                    &&& e.follow.target == Some(
                        TargetView {
                            uri: s.uri,
                            title: s.title,
                            artist: s.artist,
                            pos_us: pos,
                            at: g.clock.steady_ns,
                            playing: s.playing,
                        },
                    )
                    &&& got[n + 1].text_at("type"@) == Some("PLAY"@)
                    &&& got[n + 1].text_at("uri"@) == Some(s.uri)
                    &&& got[n + 1].bool_at("paused"@) == Some(!s.playing)
                    &&& got[n + 1].scaled_at("pos"@, 1000) == Some(pos as int)
                    &&& got[n + 1].scaled_at("dur"@, 1000) == Some(s.duration_us as int)
                    &&& got[n + 1].int_at("ts"@) == Some(stamp_of(c.clock))
                },
                None => {
                    &&& e.follow.target == g.follow.target
                    &&& e.shared.progress_us == 0
                    &&& e.shared.duration_us == 0
                    &&& !e.shared.playing
                },
            }
            &&& g.jam_received(got.last()).shared.members == seq![
                MemberView { id: "host"@, name: c.shared.display_name, is_host: true },
                MemberView { id: "guest"@, name, is_host: false },
            ]
            &&& r.shared.members == g.jam_received(got.last()).shared.members
            &&& r.who.members == r.shared.members
            &&& r.shared.connected
            &&& r.queue == c.queue
        }),
{
    broadcast use {lemma_messages_push, lemma_ops_push};

    let r = c.answered(AnswerView::Player(st), d);
    let host = c.shared.display_name;
    let (progress, playing, duration, np) = match st {
        Some(s) => (
            read_position(c.pos, c.clock.steady_ns, s.position_us, s.playing) as int,
            s.playing,
            s.duration_us as int,
            Some(s.track()),
        ),
        None => (0int, false, 0int, None),
    };
    let first = init_json(duration, c.who.gc, host, name, np, playing, progress, c.queue);
    let last = members_json(host, name);
    reveal(CoreView::welcomed);
    reveal(CoreView::announced);
    law_init_arrives(g, duration, c.who.gc, host, name, np, playing, progress, c.queue);
    law_members_arrive(g, host, name);
    match st {
        Some(s) => {
            let ts = stamp_of(c.clock) as int;
            let song = play_json(duration, s.track(), !playing, Some(progress), ts, s.uri);
            lemma_play_fields(duration, s.track(), !playing, Some(progress), ts, s.uri);
            law_position_survives_the_wire(progress);
            law_position_survives_the_wire(duration);
            assert(messages(r.out) =~= messages(c.out).push(first).push(song).push(last));
        },
        None => {
            assert(messages(r.out) =~= messages(c.out).push(first).push(last));
        },
    }
    assert(messages(r.out).take(messages(c.out).len() as int) =~= messages(c.out));
}

/// What a `PLAY` says of a song: all that is known of it, the position to go by, the present
/// time, and whether it is paused.
pub open spec fn song_news(c: CoreView, s: PlayerStateView, pos: Option<int>) -> JsonView {
    play_json(
        s.duration_us as int,
        TrackView { uri: s.uri, title: s.title, artist: s.artist, art_url: s.art_url },
        !s.playing,
        pos,
        stamp_of(c.clock) as int,
        s.uri,
    )
}

/// A guest that asks for the host's song is told it, at the position to go by, where anything is
/// known of it.
pub proof fn law_guest_that_asks_is_told(c: CoreView, st: Option<PlayerStateView>, d: DrawnView)
    requires
        c.waiting == Some(ContView::Sync),
        c.peer matches Some(p) && p.channel,
    ensures
        ({
            let r = c.answered(AnswerView::Player(st), d);
            match st {
                Some(s) if s.uri.len() > 0 || s.title.len() > 0 => {
                    let pos = read_position(c.pos, c.clock.steady_ns, s.position_us, s.playing);
                    &&& messages(r.out) == messages(c.out).push(song_news(c, s, Some(pos as int)))
                    &&& r.out.len() == c.out.len() + 1
                    &&& r.pos == c.pos.fed(c.clock.steady_ns, s.position_us, s.playing)
                    &&& r.queue == c.queue
                    &&& r.shared == c.shared
                    &&& r.waiting is None
                },
                _ => r == (CoreView { waiting: None, ..c }),
            }
        }),
{
    broadcast use lemma_messages_push;

    reveal(CoreView::synced);
    reveal(CoreView::announced);
}

/// What tells the host's songs apart: the uri, or title, artist and duration where there is none.
pub open spec fn mark(s: PlayerStateView) -> Seq<char> {
    if s.uri.len() > 0 {
        s.uri
    } else {
        s.title + seq!['\u{1}'] + s.artist + seq!['\u{1}'] + dec_signed(s.duration_us as int)
    }
}

/// A host whose song is set playing tells the guest the song again, at the position to go by; one
/// whose song is paused tells that it is.
#[verifier::spinoff_prover]
#[verifier::rlimit(40)]
pub proof fn law_host_tells_pauses(c: CoreView, s: PlayerStateView, d: DrawnView)
    requires
        c.waiting == Some(ContView::Watch),
        c.peer matches Some(p) && p.channel,
        c.watch.last_uri == Some(mark(s)),
        c.watch.last_playing != Some(s.playing),
    ensures
        ({
            let r = c.answered(AnswerView::Player(Some(s)), d);
            let pos = read_position(c.pos, c.clock.steady_ns, s.position_us, s.playing);
            &&& messages(r.out) == messages(c.out).push(
                if s.playing {
                    song_news(c, s, Some(pos as int))
                } else {
                    typed("PAUSE"@)
                },
            )
            &&& player_ops(r.out) == player_ops(c.out)
            &&& r.watch.last_uri == c.watch.last_uri
            &&& r.watch.last_playing == Some(s.playing)
            &&& r.queue == c.queue
            &&& r.shared.playing == s.playing
            &&& r.shared.duration_us == s.duration_us
            &&& !s.playing ==> r.shared.progress_us == s.position_us
        }),
{
    broadcast use {lemma_messages_push, lemma_ops_push};

    reveal(CoreView::watch_done);
    reveal(CoreView::watched);
    reveal(CoreView::noted);
    reveal(CoreView::toggled);
    reveal(CoreView::announced);
    reveal(CoreView::shown);
    reveal(CoreView::position_ticked);
    reveal(CoreView::pause_ticked);
}

/// A host whose song goes on shows where it is.
pub proof fn law_host_shows_its_song(c: CoreView, s: PlayerStateView, d: DrawnView)
    requires
        c.waiting == Some(ContView::Watch),
        c.watch.last_uri == Some(mark(s)),
        c.watch.last_playing == Some(s.playing),
    ensures
        ({
            let r = c.answered(AnswerView::Player(Some(s)), d);
            &&& r.out == c.out
            &&& r.watch == c.watch
            &&& r.queue == c.queue
            &&& r.shared == (SharedView {
                playing: s.playing,
                duration_us: s.duration_us,
                progress_us: read_position(
                    c.pos,
                    c.clock.steady_ns,
                    s.position_us,
                    s.playing,
                ),
                ..c.shared
            })
        }),
{
    reveal(CoreView::watch_done);
    reveal(CoreView::watched);
    reveal(CoreView::noted);
    reveal(CoreView::shown);
    reveal(CoreView::position_ticked);
    reveal(CoreView::pause_ticked);
}

/// The first look of a host at its player tells the guest nothing.
pub proof fn law_first_look_is_silent(c: CoreView, s: PlayerStateView, d: DrawnView)
    requires
        c.waiting == Some(ContView::Watch),
        c.watch.last_uri is None,
    ensures
        ({
            let r = c.answered(AnswerView::Player(Some(s)), d);
            &&& r.out == c.out
            &&& r.queue == c.queue
            &&& r.watch.last_uri == Some(mark(s))
            &&& r.watch.last_playing == Some(s.playing)
            &&& r.shared.playing == s.playing
            &&& r.shared.progress_us == s.position_us
            &&& r.shared.duration_us == s.duration_us
            &&& r.shared.now_playing == if s.title.len() > 0 {
                Some(s.track())
            } else {
                c.shared.now_playing
            }
        }),
{
    reveal(CoreView::watch_done);
    reveal(CoreView::watched);
    reveal(CoreView::noted);
    reveal(CoreView::shown);
    reveal(CoreView::position_ticked);
    reveal(CoreView::pause_ticked);
}

/// A host whose player has changed to nothing that is known tells that it has paused.
pub proof fn law_lost_song_is_told_as_a_pause(
    c: CoreView,
    last: Seq<char>,
    s: PlayerStateView,
    d: DrawnView,
)
    requires
        c.waiting == Some(ContView::Watch),
        c.peer matches Some(p) && p.channel,
        c.watch.last_uri == Some(last),
        last != mark(s),
        s.uri.len() == 0,
        s.title.len() == 0,
    ensures
        ({
            let r = c.answered(AnswerView::Player(Some(s)), d);
            &&& messages(r.out) == messages(c.out).push(typed("PAUSE"@))
            &&& r.out.len() == c.out.len() + 1
            &&& r.queue == c.queue
            &&& r.watch.last_uri == Some(mark(s))
        }),
{
    broadcast use lemma_messages_push;

    reveal(CoreView::watch_done);
    reveal(CoreView::watched);
    reveal(CoreView::noted);
    reveal(CoreView::changed);
    reveal(CoreView::shown);
    reveal(CoreView::position_ticked);
    reveal(CoreView::pause_ticked);
}

/// Where the uri of the host's song has just been found out, the song is told again at the
/// position that the player reports, and no song has begun.
#[verifier::spinoff_prover]
#[verifier::rlimit(40)]
pub proof fn law_song_found_out_is_told_where_it_is(
    c: CoreView,
    rest: Seq<char>,
    s: PlayerStateView,
    d: DrawnView,
)
    requires
        c.waiting == Some(ContView::Watch),
        c.peer matches Some(p) && p.channel,
        c.watch.last_uri == Some(s.title + seq!['\u{1}'] + rest),
        s.uri.len() > 0,
        s.uri != s.title + seq!['\u{1}'] + rest,
    ensures
        ({
            let r = c.answered(AnswerView::Player(Some(s)), d);
            &&& messages(r.out) == messages(c.out).push(
                song_news(c, s, Some(s.position_us as int)),
            )
            &&& r.out.len() == c.out.len() + 1
            &&& r.queue == c.queue
            &&& r.watch.last_uri == Some(s.uri)
            &&& r.shared.now_playing == Some(s.track())
        }),
{
    broadcast use lemma_messages_push;

    let k = s.title + seq!['\u{1}'] + rest;
    assert(k.take((s.title + seq!['\u{1}']).len() as int) =~= s.title + seq!['\u{1}']);
    reveal(CoreView::watch_done);
    reveal(CoreView::watched);
    reveal(CoreView::noted);
    reveal(CoreView::changed);
    reveal(CoreView::announced);
    reveal(CoreView::shown);
    reveal(CoreView::position_ticked);
    reveal(CoreView::pause_ticked);
}

/// A song that begins at the host's is told at its start. One that stood in the queue leaves it
/// with all that stood before it, and the rest of the queue goes to the guest.
#[verifier::spinoff_prover]
#[verifier::rlimit(40)]
pub proof fn law_song_that_begins_is_told(
    c: CoreView,
    last: Seq<char>,
    place: Option<int>,
    s: PlayerStateView,
    d: DrawnView,
)
    requires
        c.waiting == Some(ContView::Watch),
        c.peer matches Some(p) && p.channel,
        c.watch.last_uri == Some(last),
        last != mark(s),
        s.uri.len() > 0,
        !begins(last, s.title + seq!['\u{1}']),
        match place {
            Some(i) => 0 <= i < c.queue.len() && c.queue[i].uri == s.uri && forall|j: int|
                0 <= j < i ==> (#[trigger] c.queue[j]).uri != s.uri,
            None => forall|j: int| 0 <= j < c.queue.len() ==> (#[trigger] c.queue[j]).uri != s.uri,
        },
    ensures
        ({
            let r = c.answered(AnswerView::Player(Some(s)), d);
            let left = match place {
                Some(i) => c.queue.skip(i + 1),
                None => c.queue,
            };
            let q = if s.artist.len() > 0 || s.art_url.len() > 0 {
                backfilled(left, s.uri, s.artist, s.art_url)
            } else {
                left
            };
            let one = if place is Some {
                messages(c.out).push(queue_message_json(left))
            } else {
                messages(c.out)
            };
            let two = if s.artist.len() > 0 || s.art_url.len() > 0 {
                one.push(queue_message_json(q))
            } else {
                one
            };
            &&& messages(r.out) == two.push(song_news(c, s, None))
            &&& player_ops(r.out) == player_ops(c.out)
            &&& r.queue == q
            &&& r.watch.last_uri == Some(s.uri)
            &&& r.watch.last_playing == Some(s.playing)
            &&& r.shared.now_playing == Some(s.track())
            &&& r.shared.playing == s.playing
            &&& r.shared.duration_us == s.duration_us
            &&& s.playing && s.position_us > 700_000 && c.clock.steady_ns < u64::MAX ==>
                r.shared.progress_us == 0
        }),
{
    broadcast use {lemma_messages_push, lemma_ops_push};

    law_place_is_the_first(c.queue, s.uri);
    reveal(CoreView::watch_done);
    reveal(CoreView::watched);
    reveal(CoreView::noted);
    reveal(CoreView::changed);
    reveal(CoreView::drained);
    reveal(CoreView::completed);
    reveal(CoreView::requeued);
    reveal(CoreView::begun);
    reveal(CoreView::announced);
    reveal(CoreView::shown);
    reveal(CoreView::position_ticked);
    reveal(CoreView::pause_ticked);
}

/// A song without uri that begins at the host's is told at its start too, and the queue stays.
pub proof fn law_song_without_uri_is_told(
    c: CoreView,
    last: Seq<char>,
    s: PlayerStateView,
    d: DrawnView,
)
    requires
        c.waiting == Some(ContView::Watch),
        c.peer matches Some(p) && p.channel,
        c.watch.last_uri == Some(last),
        last != mark(s),
        s.uri.len() == 0,
        s.title.len() > 0,
    ensures
        ({
            let r = c.answered(AnswerView::Player(Some(s)), d);
            &&& messages(r.out) == messages(c.out).push(song_news(c, s, None))
            &&& r.out.len() == c.out.len() + 1
            &&& r.queue == c.queue
            &&& r.watch.last_uri == Some(mark(s))
            &&& r.shared.now_playing == Some(s.track())
        }),
{
    broadcast use lemma_messages_push;

    reveal(CoreView::watch_done);
    reveal(CoreView::watched);
    reveal(CoreView::noted);
    reveal(CoreView::changed);
    reveal(CoreView::begun);
    reveal(CoreView::announced);
    reveal(CoreView::shown);
    reveal(CoreView::position_ticked);
    reveal(CoreView::pause_ticked);
}

/// A host that has paused says so again, and where; one that plays does not.
pub proof fn law_pause_is_asserted(c: CoreView, st: Option<PlayerStateView>, d: DrawnView)
    requires
        c.waiting == Some(ContView::PauseCheck),
        c.peer matches Some(p) && p.channel,
    ensures
        ({
            let r = c.answered(AnswerView::Player(st), d);
            match st {
                Some(s) if !s.playing => {
                    &&& messages(r.out) == messages(c.out).push(typed("PAUSE"@)).push(
                        play_state_json(
                            s.duration_us as int,
                            false,
                            s.position_us as int,
                            stamp_of(c.clock) as int,
                        ),
                    )
                    &&& r.out.len() == c.out.len() + 2
                },
                _ => r == (CoreView { waiting: None, ..c }),
            }
        }),
{
    broadcast use lemma_messages_push;

    reveal(CoreView::pause_asserted);
}

/// A host whose player does not play, or plays nothing that is known, sends no position.
pub proof fn law_silent_host_sends_no_position(
    c: CoreView,
    st: Option<PlayerStateView>,
    d: DrawnView,
)
    requires
        c.waiting == Some(ContView::Tick),
        st matches Some(s) ==> !s.playing || (s.uri.len() == 0 && s.title.len() == 0),
    ensures
        ({
            let r = c.answered(AnswerView::Player(st), d);
            &&& r.out == c.out
            &&& r.pos == c.pos
            &&& r.shared == c.shared
        }),
{
    reveal(CoreView::position_sent);
    reveal(CoreView::pause_ticked);
}

/// The work of a host as time passes, behind the look at its player: the position every five
/// seconds, and a pause asserted again every two, while a guest is there.
pub open spec fn host_work(c: CoreView, r: CoreView) -> bool {
    let now = c.clock.steady_ns;
    if now - c.timers.tick >= 5_000_000_000 {
        r == (CoreView {
            timers: Timers { tick: now, ..c.timers },
            waiting: Some(ContView::Tick),
            ..c
        })
    } else {
        host_rest(c, r)
    }
}

/// The last work of a host as time passes.
pub open spec fn host_rest(c: CoreView, r: CoreView) -> bool {
    let now = c.clock.steady_ns;
    if now - c.timers.pause >= 2_000_000_000 {
        r == (CoreView {
            timers: Timers { pause: now, ..c.timers },
            waiting: if c.peer is Some && c.peer->0.channel {
                Some(ContView::PauseCheck)
            } else {
                c.waiting
            },
            ..c
        })
    } else {
        r == c
    }
}

/// What a host does as time passes: it looks at its player every 300 ms, sends the position every
/// five seconds, and asserts a pause every two, while a guest is there.
pub proof fn law_host_keeps_time(c: CoreView, d: DrawnView)
    requires
        c.shared.mode == Mode::Hosting,
        c.link.reconnect_at is None || c.clock.steady_ns < c.link.reconnect_at->0,
        c.follow.pending is None,
    ensures
        c.clock.steady_ns - c.timers.watch >= 300_000_000 ==> c.ticked(d) == (CoreView {
            timers: Timers { watch: c.clock.steady_ns, ..c.timers },
            waiting: Some(ContView::Watch),
            ..c
        }),
        c.clock.steady_ns - c.timers.watch < 300_000_000 ==> host_work(c, c.ticked(d)),
{
    reveal(CoreView::join_watched);
    reveal(CoreView::reconnect_ticked);
    reveal(CoreView::pending_ticked);
    reveal(CoreView::mode_ticked);
    reveal(CoreView::watch_ticked);
    reveal(CoreView::position_ticked);
    reveal(CoreView::pause_ticked);
}

/// A host goes on with its work once it has looked at its player.
pub proof fn law_host_goes_on_after_a_look(c: CoreView, d: DrawnView)
    ensures
        c.waiting == Some(ContView::Watch) ==> host_work(
            CoreView { waiting: None, ..c },
            c.answered(AnswerView::Player(None), d),
        ),
        c.waiting == Some(ContView::Tick) ==> host_rest(
            CoreView { waiting: None, ..c },
            c.answered(AnswerView::Player(None), d),
        ),
{
    reveal(CoreView::watch_done);
    reveal(CoreView::position_sent);
    reveal(CoreView::position_ticked);
    reveal(CoreView::pause_ticked);
}

/// Nothing is done as time passes where there is no session.
pub proof fn law_idle_session_rests(c: CoreView, d: DrawnView)
    requires
        c.shared.mode == Mode::Idle,
        c.link.reconnect_at is None,
        c.follow.pending is None,
    ensures
        c.ticked(d) == c,
{
    reveal(CoreView::join_watched);
    reveal(CoreView::reconnect_ticked);
    reveal(CoreView::pending_ticked);
    reveal(CoreView::mode_ticked);
}

/// A song that was offered to the player's own queue stands last in the queue, and everybody is
/// told; where the player did not take it, the player is asked whether it plays at all.
pub proof fn law_added_song_stands_last(
    c: CoreView,
    t: TrackView,
    who: Seq<char>,
    owned: bool,
    d: DrawnView,
)
    requires
        c.waiting == Some(ContView::Enqueue { track: t, who }),
        c.peer matches Some(p) && p.channel,
    ensures
        ({
            let r = c.answered(AnswerView::Enqueued(owned), d);
            &&& r.queue == c.queue.push(t)
            &&& r.shared.queue == c.queue.push(t)
            &&& messages(r.out) == messages(c.out).push(queue_message_json(c.queue.push(t)))
            &&& r.out.len() == c.out.len() + 1
            &&& r.own_queue == if owned {
                Some(true)
            } else {
                c.own_queue
            }
            &&& r.waiting == if owned {
                None
            } else {
                Some(ContView::QueueStart)
            }
        }),
{
    broadcast use lemma_messages_push;

    reveal(CoreView::enqueued);
    reveal(CoreView::requeued);
}

/// A song whose description has come is used with the title that it gives, and with its picture
/// where it had none: offered to the player's queue, or played.
pub proof fn law_description_gives_the_title(
    c: CoreView,
    t: TrackView,
    v: JsonView,
    purpose: PurposeView,
    second: bool,
    d: DrawnView,
)
    requires
        c.waiting == Some(
            if second {
                ContView::Curl { track: t, purpose }
            } else {
                ContView::Meta { track: t, purpose }
            },
        ),
        !c.dry_run,
        c.own_queue != Some(false),
    ensures
        ({
            let r = c.answered(
                if second {
                    AnswerView::Curled(Some(v))
                } else {
                    AnswerView::Fetched(Ok(v))
                },
                d,
            );
            let title = v.text_or("title"@, ""@);
            let picture = v.text_or("thumbnail_url"@, ""@);
            let full = TrackView {
                uri: t.uri,
                title,
                artist: t.artist,
                art_url: if t.art_url.len() > 0 {
                    t.art_url
                } else {
                    picture
                },
            };
            &&& r.titles == c.titles.push(TitleView { uri: t.uri, title, art_url: picture })
            &&& match purpose {
                PurposeView::Queue(who) => {
                    &&& r.out == c.out
                    &&& r.waiting == Some(ContView::Enqueue { track: full, who })
                },
                PurposeView::Play => {
                    &&& r.out == c.out.push(
                        ActionView::Player(
                            PlayerOpView::Open { uri: t.uri, title, artist: t.artist },
                        ),
                    )
                    &&& r.waiting is None
                },
            }
            &&& r.queue == c.queue
        }),
{
    reveal(CoreView::looked_up_again);
    reveal(CoreView::described);
    reveal(CoreView::served);
    reveal(CoreView::offered);
}

/// A song that could not be looked up is looked up in another way, under the same address, and
/// used as it is where that fails too.
pub proof fn law_lookup_is_tried_twice(
    c: CoreView,
    t: TrackView,
    purpose: PurposeView,
    e: FetchErrorView,
    d: DrawnView,
)
    requires
        c.waiting == Some(ContView::Meta { track: t, purpose }),
        !c.dry_run,
        c.own_queue != Some(false),
    ensures
        ({
            let r = c.answered(AnswerView::Fetched(Err(e)), d);
            let w = r.answered(AnswerView::Curled(None), d);
            &&& r.out == c.out
            &&& r.waiting == Some(ContView::Curl { track: t, purpose })
            &&& c.question() matches Some(QuestionView::Fetch(url)) && r.question() == Some(
                QuestionView::Curl(url),
            )
            &&& w.titles == c.titles
            &&& match purpose {
                PurposeView::Queue(who) => {
                    &&& w.out == c.out
                    &&& w.waiting == Some(ContView::Enqueue { track: t, who })
                },
                PurposeView::Play => w.out == c.out.push(
                    ActionView::Player(
                        PlayerOpView::Open { uri: t.uri, title: t.title, artist: t.artist },
                    ),
                ),
            }
        }),
{
    reveal(CoreView::lookup_failed);
    reveal(CoreView::looked_up_again);
    reveal(CoreView::served);
    reveal(CoreView::offered);
}

/// A song of the catalogue of which no title is known is looked up under its id.
pub proof fn law_song_is_looked_up_by_its_id(
    c: CoreView,
    t: TrackView,
    id: Seq<char>,
    purpose: PurposeView,
)
    requires
        t.title.len() == 0,
        t.uri == "spotify:track:"@ + id,
        forall|i: int| 0 <= i < c.titles.len() ==> (#[trigger] c.titles[i]).uri != t.uri,
    ensures
        c.looked_up(t, purpose) == (CoreView {
            waiting: Some(ContView::Meta { track: t, purpose }),
            ..c
        }),
        c.looked_up(t, purpose).question() == Some(
            QuestionView::Fetch(
                "https://open.spotify.com/oembed?url=spotify%3Atrack%3A"@ + id,
            ),
        ),
{
    let p = "spotify:track:"@;
    assert(t.uri.take(p.len() as int) =~= p);
    assert(t.uri.skip(p.len() as int) =~= id);
    lemma_not_cached(c.titles, t.uri);
    reveal(CoreView::looked_up);
}

/// What was never found out is not known.
proof fn lemma_not_cached(titles: Seq<TitleView>, uri: Seq<char>)
    requires
        forall|i: int| 0 <= i < titles.len() ==> (#[trigger] titles[i]).uri != uri,
    ensures
        cached(titles, uri) is None,
    decreases titles.len(),
{
    if titles.len() > 0 {
        assert(titles[titles.len() - 1].uri != uri);
        assert forall|i: int| 0 <= i < titles.drop_last().len() implies (
        #[trigger] titles.drop_last()[i]).uri != uri by {
            assert(titles.drop_last()[i] == titles[i]);
        }
        lemma_not_cached(titles.drop_last(), uri);
    }
}

/// A song whose title was found out before, and one that has a title, is used at once: offered to
/// the player's own queue, or played.
pub proof fn law_known_song_is_used_at_once(
    c: CoreView,
    t: TrackView,
    k: TitleView,
    purpose: PurposeView,
)
    requires
        !c.dry_run,
        c.own_queue != Some(false),
        t.title.len() > 0 || (c.titles.len() > 0 && c.titles.last() == k && k.uri == t.uri),
    ensures
        ({
            let r = c.looked_up(t, purpose);
            let full = if t.title.len() > 0 {
                t
            } else {
                TrackView {
                    title: k.title,
                    art_url: if t.art_url.len() > 0 {
                        t.art_url
                    } else {
                        k.art_url
                    },
                    ..t
                }
            };
            match purpose {
                PurposeView::Queue(who) => r == (CoreView {
                    waiting: Some(ContView::Enqueue { track: full, who }),
                    ..c
                }) && r.question() == Some(
                    QuestionView::Enqueue {
                        uri: full.uri,
                        title: full.title,
                        artist: full.artist,
                    },
                ),
                PurposeView::Play => r.out == c.out.push(
                    ActionView::Player(
                        PlayerOpView::Open {
                            uri: full.uri,
                            title: full.title,
                            artist: full.artist,
                        },
                    ),
                ) && r.waiting == c.waiting,
            }
        }),
{
    reveal(CoreView::looked_up);
    reveal(CoreView::served);
    reveal(CoreView::offered);
}

/// A song that the player's own queue cannot take, because it has none or playback is left alone,
/// stands last in the queue at once.
pub proof fn law_song_is_queued_without_the_player(
    c: CoreView,
    t: TrackView,
    who: Seq<char>,
)
    requires
        c.dry_run || c.own_queue == Some(false),
        t.title.len() > 0,
    ensures
        ({
            let r = c.looked_up(t, PurposeView::Queue(who));
            &&& r.queue == c.queue.push(t)
            &&& r.shared.queue == c.queue.push(t)
            &&& r.own_queue == c.own_queue
            &&& r.waiting == Some(ContView::QueueStart)
            &&& c.peer is Some && c.peer->0.channel ==> messages(r.out) == messages(c.out).push(
                queue_message_json(c.queue.push(t)),
            )
        }),
{
    broadcast use lemma_messages_push;

    reveal(CoreView::looked_up);
    reveal(CoreView::served);
    reveal(CoreView::offered);
    reveal(CoreView::enqueued);
    reveal(CoreView::requeued);
}

/// The queue is started where the player has nothing to play: its first song is opened and leaves
/// it, and everybody is told what is left. Where the player has a song, nothing is done.
pub proof fn law_queue_starts_where_nothing_plays(
    c: CoreView,
    st: Option<PlayerStateView>,
    d: DrawnView,
)
    requires
        c.waiting == Some(ContView::QueueStart),
        c.peer matches Some(p) && p.channel,
        c.queue.len() > 0,
        !c.dry_run,
    ensures
        ({
            let r = c.answered(AnswerView::Player(st), d);
            if st is Some && st->0.uri.len() == 0 {
                &&& player_ops(r.out) == player_ops(c.out).push(
                    PlayerOpView::Open {
                        uri: c.queue[0].uri,
                        title: c.queue[0].title,
                        artist: c.queue[0].artist,
                    },
                )
                &&& messages(r.out) == messages(c.out).push(queue_message_json(c.queue.skip(1)))
                &&& r.queue == c.queue.skip(1)
                &&& r.shared.queue == c.queue.skip(1)
            } else {
                r == (CoreView { waiting: None, ..c })
            }
        }),
{
    broadcast use {lemma_messages_push, lemma_ops_push};

    reveal(CoreView::queue_started);
    reveal(CoreView::played_next);
    reveal(CoreView::requeued);
}

/// The next song, as the host wants it or as its guest asks for it: the player skips where it has
/// a queue of its own or where no song is up next; else the first song of the queue is opened.
#[verifier::spinoff_prover]
#[verifier::rlimit(40)]
pub proof fn law_next_song_is_played(c: CoreView, n: JsonView, by_guest: bool, d: DrawnView)
    requires
        c.who.is_host,
        !c.dry_run,
        c.peer matches Some(p) && p.channel,
        by_guest ==> c.who.gc && n.text_or("type"@, ""@) == "CMD"@ && n.text_or("a"@, ""@)
            == "next"@,
    ensures
        ({
            let r = if by_guest {
                c.jam_received(n)
            } else {
                c.commanded(UiCmdView::Next, d)
            };
            if c.own_queue == Some(true) || c.queue.len() == 0 {
                &&& r.out == c.out.push(ActionView::Player(PlayerOpView::Next))
                &&& r.queue == c.queue
            } else {
                &&& player_ops(r.out) == player_ops(c.out).push(
                    PlayerOpView::Open {
                        uri: c.queue[0].uri,
                        title: c.queue[0].title,
                        artist: c.queue[0].artist,
                    },
                )
                &&& messages(r.out) == messages(c.out).push(queue_message_json(c.queue.skip(1)))
                &&& r.queue == c.queue.skip(1)
                &&& r.shared.queue == c.queue.skip(1)
            }
        }),
{
    broadcast use {lemma_messages_push, lemma_ops_push};

    if by_guest {
        lemma_kind_cmd(c, n);
        lemma_commands();
        reveal(CoreView::command_received);
    }
    reveal(CoreView::advanced);
    reveal(CoreView::skipped);
    reveal(CoreView::played_next);
    reveal(CoreView::requeued);
}

/// The commands are told apart.
proof fn lemma_commands()
    ensures
        "play"@ != "pause"@,
        "play"@ != "seek"@,
        "play"@ != "playuri"@,
        "play"@ != "next"@,
        "pause"@ != "seek"@,
        "pause"@ != "playuri"@,
        "pause"@ != "next"@,
        "seek"@ != "playuri"@,
        "seek"@ != "next"@,
        "playuri"@ != "next"@,
{
    reveal_strlit("play");
    reveal_strlit("pause");
    reveal_strlit("next");
    reveal_strlit("seek");
    reveal_strlit("playuri");
    assert("play"@.len() == 4);
    assert("pause"@.len() == 5);
    assert("next"@.len() == 4);
    assert("seek"@.len() == 4);
    assert("playuri"@.len() == 7);
    assert("next"@[0] == 'n');
    assert("play"@[0] == 'p');
    assert("seek"@[0] == 's');
}

/// What a guest that may control playback commands, the host's player does: it plays, pauses, or
/// goes to a position.
pub proof fn law_guest_controls_the_player(c: CoreView, n: JsonView)
    requires
        c.who.is_host,
        c.who.gc,
        !c.dry_run,
        n.text_or("type"@, ""@) == "CMD"@,
        ({
            let a = n.text_or("a"@, ""@);
            a == "play"@ || a == "pause"@ || a == "seek"@
        }),
    ensures
        ({
            let r = c.jam_received(n);
            let a = n.text_or("a"@, ""@);
            &&& a == "play"@ ==> r.out == c.out.push(ActionView::Player(PlayerOpView::Play))
            &&& a == "pause"@ ==> r.out == c.out.push(ActionView::Player(PlayerOpView::Pause))
            &&& a == "seek"@ ==> r.out == match n.scaled_at("pos"@, 1000) {
                Some(us) => c.out.push(ActionView::Player(PlayerOpView::Seek(us as i64))),
                None => c.out,
            }
            &&& r.queue == c.queue
            &&& r.waiting == c.waiting
        }),
{
    lemma_kind_cmd(c, n);
    lemma_commands();
    reveal(CoreView::command_received);
}

/// A song that a guest asks for, or adds to the queue, where it may control playback, is looked up
/// by its id: to be played, or to be queued under the guest's name.
pub proof fn law_guest_song_is_looked_up(c: CoreView, n: JsonView, id: Seq<char>)
    requires
        c.who.is_host,
        c.who.gc,
        n.text_at("uri"@) == Some("spotify:track:"@ + id),
        forall|i: int|
            0 <= i < c.titles.len() ==> (#[trigger] c.titles[i]).uri != "spotify:track:"@ + id,
    ensures
        n.text_or("type"@, ""@) == "CMD"@ && n.text_or("a"@, ""@) == "playuri"@ && !c.dry_run ==> {
            let r = c.jam_received(n);
            &&& r.out == c.out
            &&& r.queue == c.queue
            &&& r.waiting == Some(
                ContView::Meta {
                    track: TrackView {
                        uri: "spotify:track:"@ + id,
                        title: Seq::empty(),
                        artist: Seq::empty(),
                        art_url: Seq::empty(),
                    },
                    purpose: PurposeView::Play,
                },
            )
        },
        n.text_or("type"@, ""@) == "ADD_Q"@ && n.text_or("title"@, ""@).len() == 0 ==> {
            let r = c.jam_received(n);
            r == (CoreView {
                waiting: Some(
                    ContView::Meta {
                        track: TrackView {
                            uri: "spotify:track:"@ + id,
                            title: n.text_or("title"@, ""@),
                            artist: n.text_or("artist"@, ""@),
                            art_url: n.text_or("artUrl"@, ""@),
                        },
                        purpose: PurposeView::Queue(
                            match n.get("addedBy"@) {
                                Some(who) => who.text_or("name"@, "guest"@),
                                None => "guest"@,
                            },
                        ),
                    },
                ),
                ..c
            })
        },
{
    let uri = "spotify:track:"@ + id;
    if n.text_or("type"@, ""@) == "CMD"@ && n.text_or("a"@, ""@) == "playuri"@ && !c.dry_run {
        lemma_kind_cmd(c, n);
        lemma_commands();
        let t = TrackView {
            uri,
            title: Seq::empty(),
            artist: Seq::empty(),
            art_url: Seq::empty(),
        };
        let noted = c.logged("cmd from "@ + c.who.guest_name + ": "@ + "playuri"@);
        law_song_is_looked_up_by_its_id(noted, t, id, PurposeView::Play);
        reveal(CoreView::command_received);
    }
    if n.text_or("type"@, ""@) == "ADD_Q"@ && n.text_or("title"@, ""@).len() == 0 {
        lemma_kind_add_q(c, n);
        let t = TrackView {
            uri,
            title: n.text_or("title"@, ""@),
            artist: n.text_or("artist"@, ""@),
            art_url: n.text_or("artUrl"@, ""@),
        };
        let who = match n.get("addedBy"@) {
            Some(who) => who.text_or("name"@, "guest"@),
            None => "guest"@,
        };
        law_song_is_looked_up_by_its_id(c, t, id, PurposeView::Queue(who));
        reveal(CoreView::add_received);
    }
}

/// A song that a guest takes out of the queue leaves it wherever it stands, the others stay in
/// their order, and everybody is told.
pub proof fn law_guest_takes_songs_out(c: CoreView, n: JsonView, uri: Seq<char>)
    requires
        c.who.is_host,
        c.peer matches Some(p) && p.channel,
        n.text_or("type"@, ""@) == "RM_Q"@,
        n.text_at("uri"@) == Some(uri),
    ensures
        ({
            let r = c.jam_received(n);
            let q = c.queue.filter(|t: TrackView| t.uri != uri);
            &&& r.queue == q
            &&& r.shared.queue == q
            &&& messages(r.out) == messages(c.out).push(queue_message_json(q))
            &&& r.out.len() == c.out.len() + 1
            &&& r.waiting == c.waiting
        }),
{
    broadcast use lemma_messages_push;

    lemma_kind_rm_q(c, n);
    law_removing_keeps_the_order(c.queue, uri);
    reveal(CoreView::remove_received);
    reveal(CoreView::requeued);
}

/// A song that a guest moves stands where it was moved to, at the latest at the end; the others
/// stay in their order, and everybody is told. A place that is not there moves nothing.
pub proof fn law_guest_moves_songs(c: CoreView, n: JsonView, from: u64, to: u64)
    requires
        c.who.is_host,
        c.peer matches Some(p) && p.channel,
        n.text_or("type"@, ""@) == "MOVE_Q"@,
        n.uint_at("from"@) == Some(from) || (n.uint_at("from"@) is None && from == 0),
        n.uint_at("to"@) == Some(to) || (n.uint_at("to"@) is None && to == 0),
    ensures
        ({
            let r = c.jam_received(n);
            let rest = c.queue.remove(from as int);
            let at = if to < rest.len() {
                to as int
            } else {
                rest.len() as int
            };
            &&& from >= c.queue.len() ==> r == c
            &&& from < c.queue.len() ==> {
                &&& r.queue == rest.insert(at, c.queue[from as int])
                &&& r.shared.queue == r.queue
                &&& messages(r.out) == messages(c.out).push(queue_message_json(r.queue))
                &&& r.out.len() == c.out.len() + 1
            }
        }),
{
    broadcast use lemma_messages_push;

    lemma_kind_move_q(c, n);
    reveal(CoreView::move_received);
    reveal(CoreView::requeued);
}

/// What the user wants of playback: a host's player does it; a guest asks the host, where it may
/// control playback, and else does nothing.
pub proof fn law_user_controls_playback(c: CoreView, pause: bool, d: DrawnView)
    requires
        c.peer matches Some(p) && p.channel,
        !c.dry_run,
    ensures
        ({
            let r = c.commanded(
                if pause {
                    UiCmdView::Pause
                } else {
                    UiCmdView::Play
                },
                d,
            );
            &&& c.who.is_host ==> r == (CoreView {
                out: c.out.push(
                    ActionView::Player(
                        if pause {
                            PlayerOpView::Pause
                        } else {
                            PlayerOpView::Play
                        },
                    ),
                ),
                ..c
            })
            &&& !c.who.is_host && c.who.gc ==> {
                &&& messages(r.out) == messages(c.out).push(
                    command_json(
                        if pause {
                            "pause"@
                        } else {
                            "play"@
                        },
                    ),
                )
                &&& r.out.len() == c.out.len() + 1
            }
            &&& !c.who.is_host && !c.who.gc ==> r == c
        }),
{
    broadcast use lemma_messages_push;

    reveal(CoreView::controlled);
}

/// A guest's wishes go to the host: the next song, where it may control playback; the host's song;
/// and a song for the queue, under the guest's name.
pub proof fn law_guest_asks_the_host(c: CoreView, uri: Seq<char>, d: DrawnView)
    requires
        c.peer matches Some(p) && p.channel,
        !c.who.is_host,
    ensures
        ({
            let r = c.commanded(UiCmdView::Next, d);
            if c.who.gc {
                &&& messages(r.out) == messages(c.out).push(command_json("next"@))
                &&& r.out.len() == c.out.len() + 1
            } else {
                r == c
            }
        }),
        ({
            let r = c.commanded(UiCmdView::SyncNow, d);
            &&& messages(r.out) == messages(c.out).push(typed("SYNC"@))
            &&& r.out.len() == c.out.len() + 1
            &&& r.follow.last_sync_req == Some(c.clock.steady_ns)
        }),
        ({
            let r = c.commanded(UiCmdView::AddToQueue { uri }, d);
            &&& messages(r.out) == messages(c.out).push(
                add_to_queue_json(c.shared.display_name, uri),
            )
            &&& r.out.len() == c.out.len() + 1
            &&& r.queue == c.queue
        }),
        c.commanded(UiCmdView::SetGc(true), d) == c,
        c.commanded(UiCmdView::SetGc(false), d) == c,
{
    broadcast use lemma_messages_push;

    reveal(CoreView::advanced);
    reveal(CoreView::sync_requested);
    reveal(CoreView::song_added);
    reveal(CoreView::permitted);
}

/// A host does not ask itself.
pub proof fn law_host_does_not_ask(c: CoreView, uri: Seq<char>, d: DrawnView)
    requires
        c.who.is_host,
    ensures
        c.commanded(UiCmdView::SyncNow, d) == c,
        c.commanded(UiCmdView::AddToQueue { uri }, d) == c,
{
    reveal(CoreView::sync_requested);
    reveal(CoreView::song_added);
}

/// A host that lets its guest control playback, or not, holds to it and tells the guest.
pub proof fn law_permission_is_told(c: CoreView, g: CoreView, v: bool, d: DrawnView)
    requires
        c.peer matches Some(p) && p.channel,
        c.who.is_host,
    ensures
        ({
            let r = c.commanded(UiCmdView::SetGc(v), d);
            let m = messages(r.out).last();
            &&& messages(r.out) == messages(c.out).push(m)
            &&& r.out.len() == c.out.len() + 1
            &&& r.who.gc == v
            &&& r.shared.gc == v
            &&& m.text_at("type"@) == Some("GCTRL"@)
            &&& g.jam_received(m).who.gc == v
            &&& g.jam_received(m).shared.gc == v
        }),
{
    broadcast use lemma_messages_push;

    lemma_guest_controls_fields(v);
    law_guest_controls_arrive(g, v);
    reveal(CoreView::permitted);
}

/// A guest that introduces itself is welcomed once it is known what the player does; one without
/// a name is a listener.
pub proof fn law_guest_is_welcomed_by_name(c: CoreView, n: JsonView)
    requires
        c.who.is_host,
        n.text_or("type"@, ""@) == "JOIN"@,
    ensures
        ({
            let r = c.jam_received(n);
            let name = n.text_or("name"@, "Listener"@);
            &&& r == (CoreView {
                who: WhoView { guest_name: name, ..c.who },
                waiting: Some(ContView::Join { name }),
                ..c
            })
            &&& r.question() == Some(QuestionView::Player)
        }),
{
    lemma_kind_join(c, n);
    reveal(CoreView::join_received);
}

/// A request that lacks what it is about changes nothing: a song to add or to take out without
/// uri, a song to play without uri, and a command that is none.
pub proof fn law_incomplete_requests_change_nothing(c: CoreView, n: JsonView)
    requires
        c.who.is_host,
        n.text_at("uri"@) is None,
    ensures
        ({
            let r = c.jam_received(n);
            let kind = n.text_or("type"@, ""@);
            let a = n.text_or("a"@, ""@);
            &&& kind == "ADD_Q"@ || kind == "RM_Q"@ ==> r == c
            &&& kind == "CMD"@ && a != "play"@ && a != "pause"@ && a != "seek"@ && a != "next"@
                ==> r == (CoreView {
                shared: SharedView { logs: r.shared.logs, ..c.shared },
                ..c
            })
        }),
{
    let kind = n.text_or("type"@, ""@);
    if kind == "ADD_Q"@ {
        lemma_kind_add_q(c, n);
    }
    if kind == "RM_Q"@ {
        lemma_kind_rm_q(c, n);
    }
    if kind == "CMD"@ {
        lemma_kind_cmd(c, n);
    }
    reveal(CoreView::add_received);
    reveal(CoreView::remove_received);
    reveal(CoreView::command_received);
}

/// A song that is not of the catalogue and of which no title is known is used as it is.
pub proof fn law_song_from_elsewhere_is_used_as_it_is(
    c: CoreView,
    t: TrackView,
    purpose: PurposeView,
)
    requires
        t.title.len() == 0,
        !begins(t.uri, "spotify:track:"@),
        forall|i: int| 0 <= i < c.titles.len() ==> (#[trigger] c.titles[i]).uri != t.uri,
        !c.dry_run,
        c.own_queue != Some(false),
    ensures
        ({
            let r = c.looked_up(t, purpose);
            match purpose {
                PurposeView::Queue(who) => r == (CoreView {
                    waiting: Some(ContView::Enqueue { track: t, who }),
                    ..c
                }),
                PurposeView::Play => r.out == c.out.push(
                    ActionView::Player(
                        PlayerOpView::Open { uri: t.uri, title: t.title, artist: t.artist },
                    ),
                ) && r.waiting == c.waiting,
            }
        }),
{
    lemma_not_cached(c.titles, t.uri);
    reveal(CoreView::looked_up);
    reveal(CoreView::served);
    reveal(CoreView::offered);
}

/// What was found out last about a song counts, whatever was found out about others since.
pub proof fn law_last_title_counts(
    titles: Seq<TitleView>,
    e: TitleView,
    others: Seq<TitleView>,
)
    requires
        forall|i: int| 0 <= i < others.len() ==> (#[trigger] others[i]).uri != e.uri,
    ensures
        cached(titles.push(e) + others, e.uri) == Some(e),
    decreases others.len(),
{
    let all = titles.push(e) + others;
    if others.len() == 0 {
        assert(all =~= titles.push(e));
    } else {
        assert(others[others.len() - 1].uri != e.uri);
        assert(all.drop_last() =~= titles.push(e) + others.drop_last());
        assert forall|i: int| 0 <= i < others.drop_last().len() implies (
        #[trigger] others.drop_last()[i]).uri != e.uri by {
            assert(others.drop_last()[i] == others[i]);
        }
        law_last_title_counts(titles, e, others.drop_last());
    }
}

/// A queue without songs starts nothing.
pub proof fn law_empty_queue_starts_nothing(c: CoreView, st: Option<PlayerStateView>, d: DrawnView)
    requires
        c.waiting == Some(ContView::QueueStart),
        c.queue.len() == 0,
    ensures
        ({
            let r = c.answered(AnswerView::Player(st), d);
            r == (CoreView {
                waiting: None,
                shared: SharedView { logs: r.shared.logs, ..c.shared },
                ..c
            })
        }),
{
    reveal(CoreView::queue_started);
    reveal(CoreView::played_next);
}

} // verus!
