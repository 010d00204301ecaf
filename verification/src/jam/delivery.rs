//! What one side sends, the other receives.
use super::inbound::{position_at, position_or_zero};
use super::{ActionView, ContView, CoreView, Mode, PlayerOpView, PurposeView, TargetView};
use crate::binary64::{law_position_survives_the_wire, lemma_millis_finite};
use crate::binarypack::{packable, unjson, PackedView};
use crate::clock::stamp_of;
use crate::codec::{
    delivered, frames, law_decode_encode, message_bytes, pair, plain, received, CodecView,
    CHUNKED_MTU,
};
use crate::json::{ascending, before, bytes_before, entry, lemma_before, JsonView};
use crate::messages::{
    add_to_queue_json, command_json, guest_controls_json, guest_member_json, host_member_json,
    init_json, join_json, maybe_track, members_json, millis_json, named_json, pair_json, ping_json,
    play_json, play_state_json, play_uri_json, pong_json, queue_message_json, song_position,
    sync_tick_json, typed, whole,
};
use crate::position::onward;
use crate::track::{members_of, queue_json, track_json, track_of, tracks_of, MemberView, TrackView};
use vstd::prelude::*;
use vstd::utf8::*;

verus! {

/// A message that the wire carries as it is: a well-formed value that is not taken for one of
/// the transport's own.
pub open spec fn speakable(m: JsonView) -> bool {
    m.wf() && plain(m)
}

/// An entry whose key no entry before it has is the one that is found.
pub(crate) proof fn lemma_entry(o: Seq<(Seq<char>, JsonView)>, i: int)
    requires
        0 <= i < o.len(),
        forall|j: int| 0 <= j < i ==> (#[trigger] o[j]).0 != o[i].0,
    ensures
        entry(o, o[i].0) == Some(o[i].1),
    decreases o.len(),
{
    if i > 0 {
        assert(o[0].0 != o[i].0);
        let p = o.drop_first();
        assert(p[i - 1] == o[i]);
        assert forall|j: int| 0 <= j < i - 1 implies (#[trigger] p[j]).0 != p[i - 1].0 by {
            assert(p[j] == o[j + 1]);
        }
        lemma_entry(p, i - 1);
    }
}

/// Two ASCII keys are in order where the first character in which they differ is, or where the
/// second goes on when the first ends.
proof fn lemma_ordered(a: Seq<char>, b: Seq<char>, i: int)
    requires
        is_ascii_chars(a),
        is_ascii_chars(b),
        0 <= i <= a.len(),
        i < b.len(),
        forall|j: int| 0 <= j < i ==> a[j] == b[j],
        i < a.len() ==> (a[i] as u8) < (b[i] as u8),
    ensures
        before(a, b),
{
    is_ascii_chars_encode_utf8(a);
    is_ascii_chars_encode_utf8(b);
    let x = encode_utf8(a);
    let y = encode_utf8(b);
    assert forall|j: int| 0 <= j < i implies x[j] == y[j] by {
        assert(a[j] as u8 == x[j]);
        assert(b[j] as u8 == y[j]);
    }
    if i < a.len() {
        assert(a[i] as u8 == x[i]);
    }
    assert(b[i] as u8 == y[i]);
    lemma_bytes_ordered(x, y, i);
}

/// Two byte strings are in order where the first byte in which they differ is.
proof fn lemma_bytes_ordered(x: Seq<u8>, y: Seq<u8>, i: int)
    requires
        0 <= i <= x.len(),
        i < y.len(),
        forall|j: int| 0 <= j < i ==> x[j] == y[j],
        i < x.len() ==> x[i] < y[i],
    ensures
        bytes_before(x, y),
    decreases i,
{
    if i > 0 {
        assert(x[0] == y[0]);
        assert forall|j: int| 0 <= j < i - 1 implies x.drop_first()[j] == y.drop_first()[j] by {
            assert(x[j + 1] == y[j + 1]);
        }
        lemma_bytes_ordered(x.drop_first(), y.drop_first(), i - 1);
    }
}

/// Each key comes before the next one.
spec fn stepwise(o: Seq<(Seq<char>, JsonView)>) -> bool {
    forall|i: int| 0 <= i < o.len() - 1 ==> before((#[trigger] o[i]).0, o[i + 1].0)
}

/// Keys of which each comes before the next one ascend.
proof fn lemma_stepwise(o: Seq<(Seq<char>, JsonView)>, i: int, j: int)
    requires
        stepwise(o),
        0 <= i < j < o.len(),
    ensures
        before(o[i].0, o[j].0),
    decreases j - i,
{
    if i + 1 < j {
        lemma_stepwise(o, i, j - 1);
        assert(before(o[j - 1].0, o[j - 1 + 1].0));
        lemma_before(o[i].0, o[j - 1].0, o[j].0);
    }
}

/// An object with ordered keys and well-formed values is well-formed.
proof fn lemma_keys_wf(o: Seq<(Seq<char>, JsonView)>)
    requires
        stepwise(o),
        forall|i: int| 0 <= i < o.len() ==> (#[trigger] o[i]).1.wf(),
    ensures
        JsonView::Object(o).wf(),
{
    assert forall|i: int, j: int| 0 <= i < j < o.len() implies before(o[i].0, o[j].0) by {
        lemma_stepwise(o, i, j);
    }
    assert(ascending(o));
}

/// A key that no pair has is not found.
proof fn lemma_no_pair(m: Seq<(Seq<char>, PackedView)>, k: Seq<char>)
    requires
        forall|i: int| 0 <= i < m.len() ==> (#[trigger] m[i]).0 != k,
    ensures
        pair(m, k) is None,
    decreases m.len(),
{
    if m.len() > 0 {
        assert(m[0].0 != k);
        assert forall|i: int| 0 <= i < m.drop_first().len() implies (
        #[trigger] m.drop_first()[i]).0 != k by {
            assert(m.drop_first()[i] == m[i + 1]);
        }
        lemma_no_pair(m.drop_first(), k);
    }
}

/// An object with ordered keys and well-formed values, none of them under the transport's own
/// key, can be sent.
proof fn lemma_object_wf(o: Seq<(Seq<char>, JsonView)>)
    requires
        stepwise(o),
        forall|i: int| 0 <= i < o.len() ==> (#[trigger] o[i]).1.wf(),
        forall|i: int| 0 <= i < o.len() ==> (#[trigger] o[i]).0 != "__peerData"@,
    ensures
        speakable(JsonView::Object(o)),
{
    lemma_keys_wf(o);
    let m = unjson(JsonView::Object(o))->Dict_0;
    assert forall|i: int| 0 <= i < m.len() implies (#[trigger] m[i]).0 != "__peerData"@ by {
        assert(m[i].0 == o[i].0);
    }
    lemma_no_pair(m, "__peerData"@);
}

/// A position is a well-formed value.
proof fn lemma_millis_wf(us: int)
    requires
        i64::MIN <= us <= i64::MAX,
    ensures
        millis_json(us).wf(),
{
    lemma_millis_finite(us);
}

/// A position at the start of a song is a well-formed value.
proof fn lemma_song_position_wf(us: Option<int>)
    requires
        us matches Some(us) ==> i64::MIN <= us <= i64::MAX,
    ensures
        song_position(us).wf(),
{
    if let Some(us) = us {
        lemma_millis_finite(us);
    }
}

/// A whole number is a well-formed value.
proof fn lemma_whole_wf(n: int)
    requires
        i64::MIN <= n <= i64::MAX,
    ensures
        whole(n).wf(),
{
}

/// A song, or none, is a well-formed value.
proof fn lemma_maybe_track_wf(t: Option<TrackView>)
    ensures
        maybe_track(t).wf(),
{
    if let Some(t) = t {
        lemma_track_wf(t);
    }
}

/// A queue is a well-formed value.
proof fn lemma_queue_wf(q: Seq<TrackView>)
    ensures
        queue_json(q).wf(),
{
    let a = queue_json(q)->Array_0;
    assert forall|i: int| 0 <= i < a.len() implies (#[trigger] a[i]).wf() by {
        lemma_track_wf(q[i]);
    }
}

/// The two members of a session are a well-formed value.
proof fn lemma_pair_wf(host: Seq<char>, guest: Seq<char>)
    ensures
        pair_json(host, guest).wf(),
{
    lemma_host_member_wf(host);
    lemma_guest_member_wf(guest);
}

/// What each field of the message holds.
pub(super) proof fn lemma_track_fields(t: TrackView)
    ensures
        track_json(t).get("artUrl"@) == Some(JsonView::Str(t.art_url)),
        track_json(t).get("artist"@) == Some(JsonView::Str(t.artist)),
        track_json(t).get("title"@) == Some(JsonView::Str(t.title)),
        track_json(t).get("uri"@) == Some(JsonView::Str(t.uri)),
{
    let o = track_json(t)->Object_0;
    reveal_strlit("artUrl");
    reveal_strlit("artist");
    reveal_strlit("title");
    reveal_strlit("uri");
    assert("artUrl"@.len() == 6);
    assert("artist"@.len() == 6);
    assert("title"@.len() == 5);
    assert("uri"@.len() == 3);
    assert("artUrl"@[3] == 'U');
    assert("artist"@[3] == 'i');
    lemma_entry(o, 0);
    lemma_entry(o, 1);
    lemma_entry(o, 2);
    lemma_entry(o, 3);
}

/// A song is a well-formed value.
proof fn lemma_track_wf(t: TrackView)
    ensures
        track_json(t).wf(),
{
    let o = track_json(t)->Object_0;
    reveal_strlit("artUrl");
    reveal_strlit("artist");
    reveal_strlit("title");
    reveal_strlit("uri");
    assert("artUrl"@.len() == 6);
    assert("artist"@.len() == 6);
    assert("title"@.len() == 5);
    assert("uri"@.len() == 3);
    assert("artUrl"@[3] == 'U');
    assert("artist"@[3] == 'i');
    lemma_ordered("artUrl"@, "artist"@, 3);
    lemma_ordered("artist"@, "title"@, 0);
    lemma_ordered("title"@, "uri"@, 0);

    lemma_keys_wf(o);
}

/// What each field of the message holds.
pub(super) proof fn lemma_play_fields(
    dur: int,
    np: TrackView,
    paused: bool,
    pos: Option<int>,
    ts: int,
    uri: Seq<char>,
)
    ensures
        play_json(dur, np, paused, pos, ts, uri).get("dur"@) == Some(millis_json(dur)),
        play_json(dur, np, paused, pos, ts, uri).get("np"@) == Some(track_json(np)),
        play_json(dur, np, paused, pos, ts, uri).get("paused"@) == Some(JsonView::Bool(paused)),
        play_json(dur, np, paused, pos, ts, uri).get("pos"@) == Some(song_position(pos)),
        play_json(dur, np, paused, pos, ts, uri).get("ts"@) == Some(whole(ts)),
        play_json(dur, np, paused, pos, ts, uri).get("type"@) == Some(JsonView::Str("PLAY"@)),
        play_json(dur, np, paused, pos, ts, uri).get("uri"@) == Some(JsonView::Str(uri)),
{
    let o = play_json(dur, np, paused, pos, ts, uri)->Object_0;
    reveal_strlit("dur");
    reveal_strlit("np");
    reveal_strlit("paused");
    reveal_strlit("pos");
    reveal_strlit("ts");
    reveal_strlit("type");
    reveal_strlit("uri");
    assert("dur"@.len() == 3);
    assert("np"@.len() == 2);
    assert("paused"@.len() == 6);
    assert("pos"@.len() == 3);
    assert("ts"@.len() == 2);
    assert("type"@.len() == 4);
    assert("uri"@.len() == 3);
    assert("dur"@[0] == 'd');
    assert("pos"@[0] == 'p');
    assert("uri"@[0] == 'u');
    assert("np"@[0] == 'n');
    assert("ts"@[0] == 't');
    lemma_entry(o, 0);
    lemma_entry(o, 1);
    lemma_entry(o, 2);
    lemma_entry(o, 3);
    lemma_entry(o, 4);
    lemma_entry(o, 5);
    lemma_entry(o, 6);
}

/// A `PLAY` message is carried by the wire as it is.
pub proof fn law_play_is_speakable(
    dur: int,
    np: TrackView,
    paused: bool,
    pos: Option<int>,
    ts: int,
    uri: Seq<char>,
)
    requires
        i64::MIN <= dur <= i64::MAX,
        pos matches Some(us) ==> i64::MIN <= us <= i64::MAX,
        i64::MIN <= ts <= i64::MAX,
    ensures
        speakable(play_json(dur, np, paused, pos, ts, uri)),
{
    let m = play_json(dur, np, paused, pos, ts, uri);
    let o = m->Object_0;
    reveal_strlit("__peerData");
    assert("__peerData"@.len() == 10);
    reveal_strlit("dur");
    reveal_strlit("np");
    reveal_strlit("paused");
    reveal_strlit("pos");
    reveal_strlit("ts");
    reveal_strlit("type");
    reveal_strlit("uri");
    assert("dur"@.len() == 3);
    assert("np"@.len() == 2);
    assert("paused"@.len() == 6);
    assert("pos"@.len() == 3);
    assert("ts"@.len() == 2);
    assert("type"@.len() == 4);
    assert("uri"@.len() == 3);
    assert("dur"@[0] == 'd');
    assert("pos"@[0] == 'p');
    assert("uri"@[0] == 'u');
    assert("np"@[0] == 'n');
    assert("ts"@[0] == 't');
    lemma_ordered("dur"@, "np"@, 0);
    lemma_ordered("np"@, "paused"@, 0);
    lemma_ordered("paused"@, "pos"@, 1);
    lemma_ordered("pos"@, "ts"@, 0);
    lemma_ordered("ts"@, "type"@, 1);
    lemma_ordered("type"@, "uri"@, 0);
    lemma_millis_wf(dur);
    lemma_track_wf(np);
    lemma_song_position_wf(pos);
    lemma_whole_wf(ts);
    lemma_object_wf(o);
}

/// What each field of the message holds.
pub(super) proof fn lemma_play_state_fields(dur: int, p: bool, pos: int, ts: int)
    ensures
        play_state_json(dur, p, pos, ts).get("dur"@) == Some(millis_json(dur)),
        play_state_json(dur, p, pos, ts).get("p"@) == Some(JsonView::Bool(p)),
        play_state_json(dur, p, pos, ts).get("pos"@) == Some(millis_json(pos)),
        play_state_json(dur, p, pos, ts).get("ts"@) == Some(whole(ts)),
        play_state_json(dur, p, pos, ts).get("type"@) == Some(JsonView::Str("PS"@)),
{
    let o = play_state_json(dur, p, pos, ts)->Object_0;
    reveal_strlit("dur");
    reveal_strlit("p");
    reveal_strlit("pos");
    reveal_strlit("ts");
    reveal_strlit("type");
    assert("dur"@.len() == 3);
    assert("p"@.len() == 1);
    assert("pos"@.len() == 3);
    assert("ts"@.len() == 2);
    assert("type"@.len() == 4);
    assert("dur"@[0] == 'd');
    assert("pos"@[0] == 'p');
    lemma_entry(o, 0);
    lemma_entry(o, 1);
    lemma_entry(o, 2);
    lemma_entry(o, 3);
    lemma_entry(o, 4);
}

/// A `PS` message is carried by the wire as it is.
pub proof fn law_play_state_is_speakable(dur: int, p: bool, pos: int, ts: int)
    requires
        i64::MIN <= dur <= i64::MAX,
        i64::MIN <= pos <= i64::MAX,
        i64::MIN <= ts <= i64::MAX,
    ensures
        speakable(play_state_json(dur, p, pos, ts)),
{
    let m = play_state_json(dur, p, pos, ts);
    let o = m->Object_0;
    reveal_strlit("__peerData");
    assert("__peerData"@.len() == 10);
    reveal_strlit("dur");
    reveal_strlit("p");
    reveal_strlit("pos");
    reveal_strlit("ts");
    reveal_strlit("type");
    assert("dur"@.len() == 3);
    assert("p"@.len() == 1);
    assert("pos"@.len() == 3);
    assert("ts"@.len() == 2);
    assert("type"@.len() == 4);
    assert("dur"@[0] == 'd');
    assert("pos"@[0] == 'p');
    lemma_ordered("dur"@, "p"@, 0);
    lemma_ordered("p"@, "pos"@, 1);
    lemma_ordered("pos"@, "ts"@, 0);
    lemma_ordered("ts"@, "type"@, 1);
    lemma_millis_wf(dur);
    lemma_millis_wf(pos);
    lemma_whole_wf(ts);
    lemma_object_wf(o);
}

/// What each field of the message holds.
pub(super) proof fn lemma_sync_tick_fields(pos: int, ts: int)
    ensures
        sync_tick_json(pos, ts).get("pos"@) == Some(millis_json(pos)),
        sync_tick_json(pos, ts).get("ts"@) == Some(whole(ts)),
        sync_tick_json(pos, ts).get("type"@) == Some(JsonView::Str("SYNC_TICK"@)),
{
    let o = sync_tick_json(pos, ts)->Object_0;
    reveal_strlit("pos");
    reveal_strlit("ts");
    reveal_strlit("type");
    assert("pos"@.len() == 3);
    assert("ts"@.len() == 2);
    assert("type"@.len() == 4);
    lemma_entry(o, 0);
    lemma_entry(o, 1);
    lemma_entry(o, 2);
}

/// A `SYNC_TICK` message is carried by the wire as it is.
pub proof fn law_sync_tick_is_speakable(pos: int, ts: int)
    requires
        i64::MIN <= pos <= i64::MAX,
        i64::MIN <= ts <= i64::MAX,
    ensures
        speakable(sync_tick_json(pos, ts)),
{
    let m = sync_tick_json(pos, ts);
    let o = m->Object_0;
    reveal_strlit("__peerData");
    assert("__peerData"@.len() == 10);
    reveal_strlit("pos");
    reveal_strlit("ts");
    reveal_strlit("type");
    assert("pos"@.len() == 3);
    assert("ts"@.len() == 2);
    assert("type"@.len() == 4);
    lemma_ordered("pos"@, "ts"@, 0);
    lemma_ordered("ts"@, "type"@, 1);
    lemma_millis_wf(pos);
    lemma_whole_wf(ts);
    lemma_object_wf(o);
}

/// What each field of the message holds.
pub(super) proof fn lemma_ping_fields(ts: int)
    ensures
        ping_json(ts).get("ts"@) == Some(whole(ts)),
        ping_json(ts).get("type"@) == Some(JsonView::Str("PING"@)),
{
    let o = ping_json(ts)->Object_0;
    reveal_strlit("ts");
    reveal_strlit("type");
    assert("ts"@.len() == 2);
    assert("type"@.len() == 4);
    lemma_entry(o, 0);
    lemma_entry(o, 1);
}

/// A `PING` message is carried by the wire as it is.
pub proof fn law_ping_is_speakable(ts: int)
    requires
        i64::MIN <= ts <= i64::MAX,
    ensures
        speakable(ping_json(ts)),
{
    let m = ping_json(ts);
    let o = m->Object_0;
    reveal_strlit("__peerData");
    assert("__peerData"@.len() == 10);
    reveal_strlit("ts");
    reveal_strlit("type");
    assert("ts"@.len() == 2);
    assert("type"@.len() == 4);
    lemma_ordered("ts"@, "type"@, 1);
    lemma_whole_wf(ts);
    lemma_object_wf(o);
}

/// What each field of the message holds.
pub(super) proof fn lemma_pong_fields(ts: int)
    ensures
        pong_json(ts).get("ts"@) == Some(whole(ts)),
        pong_json(ts).get("type"@) == Some(JsonView::Str("PONG"@)),
{
    let o = pong_json(ts)->Object_0;
    reveal_strlit("ts");
    reveal_strlit("type");
    assert("ts"@.len() == 2);
    assert("type"@.len() == 4);
    lemma_entry(o, 0);
    lemma_entry(o, 1);
}

/// A `PONG` message is carried by the wire as it is.
pub proof fn law_pong_is_speakable(ts: int)
    requires
        i64::MIN <= ts <= i64::MAX,
    ensures
        speakable(pong_json(ts)),
{
    let m = pong_json(ts);
    let o = m->Object_0;
    reveal_strlit("__peerData");
    assert("__peerData"@.len() == 10);
    reveal_strlit("ts");
    reveal_strlit("type");
    assert("ts"@.len() == 2);
    assert("type"@.len() == 4);
    lemma_ordered("ts"@, "type"@, 1);
    lemma_whole_wf(ts);
    lemma_object_wf(o);
}

/// What each field of the message holds.
pub(super) proof fn lemma_join_fields(name: Seq<char>)
    ensures
        join_json(name).get("image"@) == Some(JsonView::Str(""@)),
        join_json(name).get("name"@) == Some(JsonView::Str(name)),
        join_json(name).get("type"@) == Some(JsonView::Str("JOIN"@)),
{
    let o = join_json(name)->Object_0;
    reveal_strlit("image");
    reveal_strlit("name");
    reveal_strlit("type");
    assert("image"@.len() == 5);
    assert("name"@.len() == 4);
    assert("type"@.len() == 4);
    assert("name"@[0] == 'n');
    assert("type"@[0] == 't');
    lemma_entry(o, 0);
    lemma_entry(o, 1);
    lemma_entry(o, 2);
}

/// A `JOIN` message is carried by the wire as it is.
pub proof fn law_join_is_speakable(name: Seq<char>)
    ensures
        speakable(join_json(name)),
{
    let m = join_json(name);
    let o = m->Object_0;
    reveal_strlit("__peerData");
    assert("__peerData"@.len() == 10);
    reveal_strlit("image");
    reveal_strlit("name");
    reveal_strlit("type");
    assert("image"@.len() == 5);
    assert("name"@.len() == 4);
    assert("type"@.len() == 4);
    assert("name"@[0] == 'n');
    assert("type"@[0] == 't');
    lemma_ordered("image"@, "name"@, 0);
    lemma_ordered("name"@, "type"@, 0);

    lemma_object_wf(o);
}

/// What each field of the message holds.
pub(super) proof fn lemma_guest_controls_fields(on: bool)
    ensures
        guest_controls_json(on).get("on"@) == Some(JsonView::Bool(on)),
        guest_controls_json(on).get("type"@) == Some(JsonView::Str("GCTRL"@)),
{
    let o = guest_controls_json(on)->Object_0;
    reveal_strlit("on");
    reveal_strlit("type");
    assert("on"@.len() == 2);
    assert("type"@.len() == 4);
    lemma_entry(o, 0);
    lemma_entry(o, 1);
}

/// A `GCTRL` message is carried by the wire as it is.
pub proof fn law_guest_controls_is_speakable(on: bool)
    ensures
        speakable(guest_controls_json(on)),
{
    let m = guest_controls_json(on);
    let o = m->Object_0;
    reveal_strlit("__peerData");
    assert("__peerData"@.len() == 10);
    reveal_strlit("on");
    reveal_strlit("type");
    assert("on"@.len() == 2);
    assert("type"@.len() == 4);
    lemma_ordered("on"@, "type"@, 0);

    lemma_object_wf(o);
}

/// What each field of the message holds.
pub(super) proof fn lemma_queue_message_fields(q: Seq<TrackView>)
    ensures
        queue_message_json(q).get("queue"@) == Some(queue_json(q)),
        queue_message_json(q).get("type"@) == Some(JsonView::Str("Q"@)),
{
    let o = queue_message_json(q)->Object_0;
    reveal_strlit("queue");
    reveal_strlit("type");
    assert("queue"@.len() == 5);
    assert("type"@.len() == 4);
    lemma_entry(o, 0);
    lemma_entry(o, 1);
}

/// A `Q` message is carried by the wire as it is.
pub proof fn law_queue_message_is_speakable(q: Seq<TrackView>)
    ensures
        speakable(queue_message_json(q)),
{
    let m = queue_message_json(q);
    let o = m->Object_0;
    reveal_strlit("__peerData");
    assert("__peerData"@.len() == 10);
    reveal_strlit("queue");
    reveal_strlit("type");
    assert("queue"@.len() == 5);
    assert("type"@.len() == 4);
    lemma_ordered("queue"@, "type"@, 0);
    lemma_queue_wf(q);
    lemma_object_wf(o);
}

/// What each field of the message holds.
pub(super) proof fn lemma_command_fields(a: Seq<char>)
    ensures
        command_json(a).get("a"@) == Some(JsonView::Str(a)),
        command_json(a).get("type"@) == Some(JsonView::Str("CMD"@)),
{
    let o = command_json(a)->Object_0;
    reveal_strlit("a");
    reveal_strlit("type");
    assert("a"@.len() == 1);
    assert("type"@.len() == 4);
    lemma_entry(o, 0);
    lemma_entry(o, 1);
}

/// A `CMD` message is carried by the wire as it is.
pub proof fn law_command_is_speakable(a: Seq<char>)
    ensures
        speakable(command_json(a)),
{
    let m = command_json(a);
    let o = m->Object_0;
    reveal_strlit("__peerData");
    assert("__peerData"@.len() == 10);
    reveal_strlit("a");
    reveal_strlit("type");
    assert("a"@.len() == 1);
    assert("type"@.len() == 4);
    lemma_ordered("a"@, "type"@, 0);

    lemma_object_wf(o);
}

/// What each field of the message holds.
pub(super) proof fn lemma_play_uri_fields(uri: Seq<char>)
    ensures
        play_uri_json(uri).get("a"@) == Some(JsonView::Str("playuri"@)),
        play_uri_json(uri).get("type"@) == Some(JsonView::Str("CMD"@)),
        play_uri_json(uri).get("uri"@) == Some(JsonView::Str(uri)),
{
    let o = play_uri_json(uri)->Object_0;
    reveal_strlit("a");
    reveal_strlit("type");
    reveal_strlit("uri");
    assert("a"@.len() == 1);
    assert("type"@.len() == 4);
    assert("uri"@.len() == 3);
    lemma_entry(o, 0);
    lemma_entry(o, 1);
    lemma_entry(o, 2);
}

/// A `CMD` message that asks for a song is carried by the wire as it is.
pub proof fn law_play_uri_is_speakable(uri: Seq<char>)
    ensures
        speakable(play_uri_json(uri)),
{
    let m = play_uri_json(uri);
    let o = m->Object_0;
    reveal_strlit("__peerData");
    assert("__peerData"@.len() == 10);
    reveal_strlit("a");
    reveal_strlit("type");
    reveal_strlit("uri");
    assert("a"@.len() == 1);
    assert("type"@.len() == 4);
    assert("uri"@.len() == 3);
    lemma_ordered("a"@, "type"@, 0);
    lemma_ordered("type"@, "uri"@, 0);

    lemma_object_wf(o);
}

/// What each field of the message holds.
pub(super) proof fn lemma_named_fields(name: Seq<char>)
    ensures
        named_json(name).get("image"@) == Some(JsonView::Str(""@)),
        named_json(name).get("name"@) == Some(JsonView::Str(name)),
{
    let o = named_json(name)->Object_0;
    reveal_strlit("image");
    reveal_strlit("name");
    assert("image"@.len() == 5);
    assert("name"@.len() == 4);
    lemma_entry(o, 0);
    lemma_entry(o, 1);
}

/// A name is a well-formed value.
proof fn lemma_named_wf(name: Seq<char>)
    ensures
        named_json(name).wf(),
{
    let o = named_json(name)->Object_0;
    reveal_strlit("image");
    reveal_strlit("name");
    assert("image"@.len() == 5);
    assert("name"@.len() == 4);
    lemma_ordered("image"@, "name"@, 0);

    lemma_keys_wf(o);
}

/// What each field of the message holds.
pub(super) proof fn lemma_add_to_queue_fields(name: Seq<char>, uri: Seq<char>)
    ensures
        add_to_queue_json(name, uri).get("addedBy"@) == Some(named_json(name)),
        add_to_queue_json(name, uri).get("type"@) == Some(JsonView::Str("ADD_Q"@)),
        add_to_queue_json(name, uri).get("uri"@) == Some(JsonView::Str(uri)),
{
    let o = add_to_queue_json(name, uri)->Object_0;
    reveal_strlit("addedBy");
    reveal_strlit("type");
    reveal_strlit("uri");
    assert("addedBy"@.len() == 7);
    assert("type"@.len() == 4);
    assert("uri"@.len() == 3);
    lemma_entry(o, 0);
    lemma_entry(o, 1);
    lemma_entry(o, 2);
}

/// An `ADD_Q` message is carried by the wire as it is.
pub proof fn law_add_to_queue_is_speakable(name: Seq<char>, uri: Seq<char>)
    ensures
        speakable(add_to_queue_json(name, uri)),
{
    let m = add_to_queue_json(name, uri);
    let o = m->Object_0;
    reveal_strlit("__peerData");
    assert("__peerData"@.len() == 10);
    reveal_strlit("addedBy");
    reveal_strlit("type");
    reveal_strlit("uri");
    assert("addedBy"@.len() == 7);
    assert("type"@.len() == 4);
    assert("uri"@.len() == 3);
    lemma_ordered("addedBy"@, "type"@, 0);
    lemma_ordered("type"@, "uri"@, 0);
    lemma_named_wf(name);
    lemma_object_wf(o);
}

/// What each field of the message holds.
pub(super) proof fn lemma_host_member_fields(name: Seq<char>)
    ensures
        host_member_json(name).get("id"@) == Some(JsonView::Str("host"@)),
        host_member_json(name).get("isHost"@) == Some(JsonView::Bool(true)),
        host_member_json(name).get("name"@) == Some(JsonView::Str(name)),
{
    let o = host_member_json(name)->Object_0;
    reveal_strlit("id");
    reveal_strlit("isHost");
    reveal_strlit("name");
    assert("id"@.len() == 2);
    assert("isHost"@.len() == 6);
    assert("name"@.len() == 4);
    lemma_entry(o, 0);
    lemma_entry(o, 1);
    lemma_entry(o, 2);
}

/// The host as a member is a well-formed value.
proof fn lemma_host_member_wf(name: Seq<char>)
    ensures
        host_member_json(name).wf(),
{
    let o = host_member_json(name)->Object_0;
    reveal_strlit("id");
    reveal_strlit("isHost");
    reveal_strlit("name");
    assert("id"@.len() == 2);
    assert("isHost"@.len() == 6);
    assert("name"@.len() == 4);
    lemma_ordered("id"@, "isHost"@, 1);
    lemma_ordered("isHost"@, "name"@, 0);

    lemma_keys_wf(o);
}

/// What each field of the message holds.
pub(super) proof fn lemma_guest_member_fields(name: Seq<char>)
    ensures
        guest_member_json(name).get("id"@) == Some(JsonView::Str("guest"@)),
        guest_member_json(name).get("image"@) == Some(JsonView::Str(""@)),
        guest_member_json(name).get("name"@) == Some(JsonView::Str(name)),
{
    let o = guest_member_json(name)->Object_0;
    reveal_strlit("id");
    reveal_strlit("image");
    reveal_strlit("name");
    assert("id"@.len() == 2);
    assert("image"@.len() == 5);
    assert("name"@.len() == 4);
    lemma_entry(o, 0);
    lemma_entry(o, 1);
    lemma_entry(o, 2);
}

/// The guest as a member is a well-formed value.
proof fn lemma_guest_member_wf(name: Seq<char>)
    ensures
        guest_member_json(name).wf(),
{
    let o = guest_member_json(name)->Object_0;
    reveal_strlit("id");
    reveal_strlit("image");
    reveal_strlit("name");
    assert("id"@.len() == 2);
    assert("image"@.len() == 5);
    assert("name"@.len() == 4);
    lemma_ordered("id"@, "image"@, 1);
    lemma_ordered("image"@, "name"@, 0);

    lemma_keys_wf(o);
}

/// What each field of the message holds.
pub(super) proof fn lemma_members_fields(host: Seq<char>, guest: Seq<char>)
    ensures
        members_json(host, guest).get("members"@) == Some(pair_json(host, guest)),
        members_json(host, guest).get("type"@) == Some(JsonView::Str("MEMBERS"@)),
{
    let o = members_json(host, guest)->Object_0;
    reveal_strlit("members");
    reveal_strlit("type");
    assert("members"@.len() == 7);
    assert("type"@.len() == 4);
    lemma_entry(o, 0);
    lemma_entry(o, 1);
}

/// A `MEMBERS` message is carried by the wire as it is.
pub proof fn law_members_is_speakable(host: Seq<char>, guest: Seq<char>)
    ensures
        speakable(members_json(host, guest)),
{
    let m = members_json(host, guest);
    let o = m->Object_0;
    reveal_strlit("__peerData");
    assert("__peerData"@.len() == 10);
    reveal_strlit("members");
    reveal_strlit("type");
    assert("members"@.len() == 7);
    assert("type"@.len() == 4);
    lemma_ordered("members"@, "type"@, 0);
    lemma_pair_wf(host, guest);
    lemma_object_wf(o);
}

/// What each field of the message holds.
pub(super) proof fn lemma_init_fields(
    duration: int,
    gc: bool,
    host: Seq<char>,
    guest: Seq<char>,
    np: Option<TrackView>,
    playing: bool,
    progress: int,
    q: Seq<TrackView>,
)
    ensures
        ({
            let m = init_json(duration, gc, host, guest, np, playing, progress, q);
            &&& m.get("duration"@) == Some(millis_json(duration))
            &&& m.get("gc"@) == Some(JsonView::Bool(gc))
            &&& m.get("host"@) == Some(JsonView::Str(host))
            &&& m.get("members"@) == Some(pair_json(host, guest))
            &&& m.get("np"@) == Some(maybe_track(np))
            &&& m.get("playing"@) == Some(JsonView::Bool(playing))
            &&& m.get("progress"@) == Some(millis_json(progress))
            &&& m.get("queue"@) == Some(queue_json(q))
            &&& m.get("type"@) == Some(JsonView::Str("INIT"@))
        }),
{
    let o = init_json(duration, gc, host, guest, np, playing, progress, q)->Object_0;
    reveal_strlit("duration");
    reveal_strlit("gc");
    reveal_strlit("host");
    reveal_strlit("members");
    reveal_strlit("np");
    reveal_strlit("playing");
    reveal_strlit("progress");
    reveal_strlit("queue");
    reveal_strlit("type");
    assert("duration"@.len() == 8);
    assert("gc"@.len() == 2);
    assert("host"@.len() == 4);
    assert("members"@.len() == 7);
    assert("np"@.len() == 2);
    assert("playing"@.len() == 7);
    assert("progress"@.len() == 8);
    assert("queue"@.len() == 5);
    assert("type"@.len() == 4);
    assert("duration"@[0] == 'd');
    assert("progress"@[0] == 'p');
    assert("gc"@[0] == 'g');
    assert("np"@[0] == 'n');
    assert("host"@[0] == 'h');
    assert("type"@[0] == 't');
    assert("members"@[0] == 'm');
    assert("playing"@[0] == 'p');
    lemma_entry(o, 0);
    lemma_entry(o, 1);
    lemma_entry(o, 2);
    lemma_entry(o, 3);
    lemma_entry(o, 4);
    lemma_entry(o, 5);
    lemma_entry(o, 6);
    lemma_entry(o, 7);
    lemma_entry(o, 8);
}

/// An `INIT` message is carried by the wire as it is.
pub proof fn law_init_is_speakable(
    duration: int,
    gc: bool,
    host: Seq<char>,
    guest: Seq<char>,
    np: Option<TrackView>,
    playing: bool,
    progress: int,
    q: Seq<TrackView>,
)
    requires
        i64::MIN <= duration <= i64::MAX,
        i64::MIN <= progress <= i64::MAX,
    ensures
        speakable(init_json(duration, gc, host, guest, np, playing, progress, q)),
{
    let m = init_json(duration, gc, host, guest, np, playing, progress, q);
    let o = m->Object_0;
    reveal_strlit("__peerData");
    assert("__peerData"@.len() == 10);
    reveal_strlit("duration");
    reveal_strlit("gc");
    reveal_strlit("host");
    reveal_strlit("members");
    reveal_strlit("np");
    reveal_strlit("playing");
    reveal_strlit("progress");
    reveal_strlit("queue");
    reveal_strlit("type");
    assert("duration"@.len() == 8);
    assert("gc"@.len() == 2);
    assert("host"@.len() == 4);
    assert("members"@.len() == 7);
    assert("np"@.len() == 2);
    assert("playing"@.len() == 7);
    assert("progress"@.len() == 8);
    assert("queue"@.len() == 5);
    assert("type"@.len() == 4);
    assert("duration"@[0] == 'd');
    assert("progress"@[0] == 'p');
    assert("gc"@[0] == 'g');
    assert("np"@[0] == 'n');
    assert("host"@[0] == 'h');
    assert("type"@[0] == 't');
    assert("members"@[0] == 'm');
    assert("playing"@[0] == 'p');
    lemma_ordered("duration"@, "gc"@, 0);
    lemma_ordered("gc"@, "host"@, 0);
    lemma_ordered("host"@, "members"@, 0);
    lemma_ordered("members"@, "np"@, 0);
    lemma_ordered("np"@, "playing"@, 0);
    lemma_ordered("playing"@, "progress"@, 1);
    lemma_ordered("progress"@, "queue"@, 0);
    lemma_ordered("queue"@, "type"@, 0);
    lemma_millis_wf(duration);
    lemma_pair_wf(host, guest);
    lemma_maybe_track_wf(np);
    lemma_millis_wf(progress);
    lemma_queue_wf(q);
    lemma_object_wf(o);
}

/// What each field of the message holds.
pub(super) proof fn lemma_typed_fields(kind: Seq<char>)
    ensures
        typed(kind).get("type"@) == Some(JsonView::Str(kind)),
{
    let o = typed(kind)->Object_0;
    reveal_strlit("type");
    assert("type"@.len() == 4);
    lemma_entry(o, 0);
}

/// A message that has nothing but its type is carried by the wire as it is.
pub proof fn law_typed_is_speakable(kind: Seq<char>)
    ensures
        speakable(typed(kind)),
{
    let m = typed(kind);
    let o = m->Object_0;
    reveal_strlit("__peerData");
    assert("__peerData"@.len() == 10);
    reveal_strlit("type");
    assert("type"@.len() == 4);


    lemma_object_wf(o);
}

/// How a `INIT` message is dealt with.
pub(super) proof fn lemma_kind_init(c: CoreView, n: JsonView)
    requires
        n.text_or("type"@, ""@) == "INIT"@,
    ensures
        c.jam_received(n) == c.introduced(n),
{
    reveal_strlit("INIT");
    assert("INIT"@.len() == 4);
}

/// How a `PLAY` message is dealt with.
pub(super) proof fn lemma_kind_play(c: CoreView, n: JsonView)
    requires
        n.text_or("type"@, ""@) == "PLAY"@,
    ensures
        c.jam_received(n) == c.play_received(n),
{
    reveal_strlit("PLAY");
    reveal_strlit("INIT");
    assert("PLAY"@.len() == 4);
    assert("INIT"@.len() == 4);
    assert("PLAY"@[0] == 'P');
    assert("INIT"@[0] == 'I');
}

/// How a `PAUSE` message is dealt with.
pub(super) proof fn lemma_kind_pause(c: CoreView, n: JsonView)
    requires
        n.text_or("type"@, ""@) == "PAUSE"@,
    ensures
        c.jam_received(n) == c.pause_received(),
{
    reveal_strlit("PAUSE");
    reveal_strlit("INIT");
    reveal_strlit("PLAY");
    assert("PAUSE"@.len() == 5);
    assert("INIT"@.len() == 4);
    assert("PLAY"@.len() == 4);
}

/// How a `PS` message is dealt with.
pub(super) proof fn lemma_kind_ps(c: CoreView, n: JsonView)
    requires
        n.text_or("type"@, ""@) == "PS"@,
    ensures
        c.jam_received(n) == c.play_state_received(n),
{
    reveal_strlit("PS");
    reveal_strlit("INIT");
    reveal_strlit("PLAY");
    reveal_strlit("PAUSE");
    assert("PS"@.len() == 2);
    assert("INIT"@.len() == 4);
    assert("PLAY"@.len() == 4);
    assert("PAUSE"@.len() == 5);
}

/// How a `SEEK` message is dealt with.
pub(super) proof fn lemma_kind_seek(c: CoreView, n: JsonView)
    requires
        n.text_or("type"@, ""@) == "SEEK"@,
    ensures
        c.jam_received(n) == c.sought(position_or_zero(n, "pos"@), c.sent_at(n)),
{
    reveal_strlit("SEEK");
    reveal_strlit("INIT");
    reveal_strlit("PLAY");
    reveal_strlit("PAUSE");
    reveal_strlit("PS");
    assert("SEEK"@.len() == 4);
    assert("INIT"@.len() == 4);
    assert("PLAY"@.len() == 4);
    assert("PAUSE"@.len() == 5);
    assert("PS"@.len() == 2);
    assert("SEEK"@[0] == 'S');
    assert("INIT"@[0] == 'I');
    assert("PLAY"@[0] == 'P');
}

/// How a `SYNC_TICK` message is dealt with.
pub(super) proof fn lemma_kind_sync_tick(c: CoreView, n: JsonView)
    requires
        n.text_or("type"@, ""@) == "SYNC_TICK"@,
    ensures
        c.jam_received(n) == c.tick_received(n),
{
    reveal_strlit("SYNC_TICK");
    reveal_strlit("INIT");
    reveal_strlit("PLAY");
    reveal_strlit("PAUSE");
    reveal_strlit("PS");
    reveal_strlit("SEEK");
    assert("SYNC_TICK"@.len() == 9);
    assert("INIT"@.len() == 4);
    assert("PLAY"@.len() == 4);
    assert("PAUSE"@.len() == 5);
    assert("PS"@.len() == 2);
    assert("SEEK"@.len() == 4);
}

/// How a `PONG` message is dealt with.
pub(super) proof fn lemma_kind_pong(c: CoreView, n: JsonView)
    requires
        n.text_or("type"@, ""@) == "PONG"@,
    ensures
        c.jam_received(n) == c.pong_received(n),
{
    reveal_strlit("PONG");
    reveal_strlit("INIT");
    reveal_strlit("PLAY");
    reveal_strlit("PAUSE");
    reveal_strlit("PS");
    reveal_strlit("SEEK");
    reveal_strlit("SYNC_TICK");
    assert("PONG"@.len() == 4);
    assert("INIT"@.len() == 4);
    assert("PLAY"@.len() == 4);
    assert("PAUSE"@.len() == 5);
    assert("PS"@.len() == 2);
    assert("SEEK"@.len() == 4);
    assert("SYNC_TICK"@.len() == 9);
    assert("PONG"@[0] == 'P');
    assert("INIT"@[0] == 'I');
    assert("PONG"@[1] == 'O');
    assert("PLAY"@[1] == 'L');
    assert("SEEK"@[0] == 'S');
}

/// How a `MEMBERS` message is dealt with.
pub(super) proof fn lemma_kind_members(c: CoreView, n: JsonView)
    requires
        n.text_or("type"@, ""@) == "MEMBERS"@,
    ensures
        c.jam_received(n) == c.members_received(n),
{
    reveal_strlit("MEMBERS");
    reveal_strlit("INIT");
    reveal_strlit("PLAY");
    reveal_strlit("PAUSE");
    reveal_strlit("PS");
    reveal_strlit("SEEK");
    reveal_strlit("SYNC_TICK");
    reveal_strlit("PONG");
    assert("MEMBERS"@.len() == 7);
    assert("INIT"@.len() == 4);
    assert("PLAY"@.len() == 4);
    assert("PAUSE"@.len() == 5);
    assert("PS"@.len() == 2);
    assert("SEEK"@.len() == 4);
    assert("SYNC_TICK"@.len() == 9);
    assert("PONG"@.len() == 4);
}

/// How a `GCTRL` message is dealt with.
pub(super) proof fn lemma_kind_gctrl(c: CoreView, n: JsonView)
    requires
        n.text_or("type"@, ""@) == "GCTRL"@,
    ensures
        c.jam_received(n) == c.permission_received(n),
{
    reveal_strlit("GCTRL");
    reveal_strlit("INIT");
    reveal_strlit("PLAY");
    reveal_strlit("PAUSE");
    reveal_strlit("PS");
    reveal_strlit("SEEK");
    reveal_strlit("SYNC_TICK");
    reveal_strlit("PONG");
    reveal_strlit("MEMBERS");
    assert("GCTRL"@.len() == 5);
    assert("INIT"@.len() == 4);
    assert("PLAY"@.len() == 4);
    assert("PAUSE"@.len() == 5);
    assert("PS"@.len() == 2);
    assert("SEEK"@.len() == 4);
    assert("SYNC_TICK"@.len() == 9);
    assert("PONG"@.len() == 4);
    assert("MEMBERS"@.len() == 7);
    assert("GCTRL"@[0] == 'G');
    assert("PAUSE"@[0] == 'P');
}

/// How a `Q` message is dealt with.
pub(super) proof fn lemma_kind_q(c: CoreView, n: JsonView)
    requires
        n.text_or("type"@, ""@) == "Q"@,
    ensures
        c.jam_received(n) == c.queue_received(n),
{
    reveal_strlit("Q");
    reveal_strlit("INIT");
    reveal_strlit("PLAY");
    reveal_strlit("PAUSE");
    reveal_strlit("PS");
    reveal_strlit("SEEK");
    reveal_strlit("SYNC_TICK");
    reveal_strlit("PONG");
    reveal_strlit("MEMBERS");
    reveal_strlit("GCTRL");
    assert("Q"@.len() == 1);
    assert("INIT"@.len() == 4);
    assert("PLAY"@.len() == 4);
    assert("PAUSE"@.len() == 5);
    assert("PS"@.len() == 2);
    assert("SEEK"@.len() == 4);
    assert("SYNC_TICK"@.len() == 9);
    assert("PONG"@.len() == 4);
    assert("MEMBERS"@.len() == 7);
    assert("GCTRL"@.len() == 5);
}

/// How a `KICK` message is dealt with.
pub(super) proof fn lemma_kind_kick(c: CoreView, n: JsonView)
    requires
        n.text_or("type"@, ""@) == "KICK"@,
    ensures
        c.jam_received(n) == c.kicked(),
{
    reveal_strlit("KICK");
    reveal_strlit("INIT");
    reveal_strlit("PLAY");
    reveal_strlit("PAUSE");
    reveal_strlit("PS");
    reveal_strlit("SEEK");
    reveal_strlit("SYNC_TICK");
    reveal_strlit("PONG");
    reveal_strlit("MEMBERS");
    reveal_strlit("GCTRL");
    reveal_strlit("Q");
    assert("KICK"@.len() == 4);
    assert("INIT"@.len() == 4);
    assert("PLAY"@.len() == 4);
    assert("PAUSE"@.len() == 5);
    assert("PS"@.len() == 2);
    assert("SEEK"@.len() == 4);
    assert("SYNC_TICK"@.len() == 9);
    assert("PONG"@.len() == 4);
    assert("MEMBERS"@.len() == 7);
    assert("GCTRL"@.len() == 5);
    assert("Q"@.len() == 1);
    assert("KICK"@[0] == 'K');
    assert("INIT"@[0] == 'I');
    assert("PLAY"@[0] == 'P');
    assert("SEEK"@[0] == 'S');
    assert("PONG"@[0] == 'P');
}

/// How a `PING` message is dealt with.
pub(super) proof fn lemma_kind_ping(c: CoreView, n: JsonView)
    requires
        n.text_or("type"@, ""@) == "PING"@,
    ensures
        c.jam_received(n) == c.ping_received(n),
{
    reveal_strlit("PING");
    reveal_strlit("INIT");
    reveal_strlit("PLAY");
    reveal_strlit("PAUSE");
    reveal_strlit("PS");
    reveal_strlit("SEEK");
    reveal_strlit("SYNC_TICK");
    reveal_strlit("PONG");
    reveal_strlit("MEMBERS");
    reveal_strlit("GCTRL");
    reveal_strlit("Q");
    reveal_strlit("KICK");
    assert("PING"@.len() == 4);
    assert("INIT"@.len() == 4);
    assert("PLAY"@.len() == 4);
    assert("PAUSE"@.len() == 5);
    assert("PS"@.len() == 2);
    assert("SEEK"@.len() == 4);
    assert("SYNC_TICK"@.len() == 9);
    assert("PONG"@.len() == 4);
    assert("MEMBERS"@.len() == 7);
    assert("GCTRL"@.len() == 5);
    assert("Q"@.len() == 1);
    assert("KICK"@.len() == 4);
    assert("PING"@[0] == 'P');
    assert("INIT"@[0] == 'I');
    assert("PING"@[1] == 'I');
    assert("PLAY"@[1] == 'L');
    assert("SEEK"@[0] == 'S');
    assert("PONG"@[1] == 'O');
    assert("KICK"@[0] == 'K');
}

/// How a `JOIN` message is dealt with.
pub(super) proof fn lemma_kind_join(c: CoreView, n: JsonView)
    requires
        n.text_or("type"@, ""@) == "JOIN"@,
    ensures
        c.jam_received(n) == if c.who.is_host { c.join_received(n) } else { c },
{
    reveal_strlit("JOIN");
    reveal_strlit("INIT");
    reveal_strlit("PLAY");
    reveal_strlit("PAUSE");
    reveal_strlit("PS");
    reveal_strlit("SEEK");
    reveal_strlit("SYNC_TICK");
    reveal_strlit("PONG");
    reveal_strlit("MEMBERS");
    reveal_strlit("GCTRL");
    reveal_strlit("Q");
    reveal_strlit("KICK");
    reveal_strlit("PING");
    assert("JOIN"@.len() == 4);
    assert("INIT"@.len() == 4);
    assert("PLAY"@.len() == 4);
    assert("PAUSE"@.len() == 5);
    assert("PS"@.len() == 2);
    assert("SEEK"@.len() == 4);
    assert("SYNC_TICK"@.len() == 9);
    assert("PONG"@.len() == 4);
    assert("MEMBERS"@.len() == 7);
    assert("GCTRL"@.len() == 5);
    assert("Q"@.len() == 1);
    assert("KICK"@.len() == 4);
    assert("PING"@.len() == 4);
    assert("JOIN"@[0] == 'J');
    assert("INIT"@[0] == 'I');
    assert("PLAY"@[0] == 'P');
    assert("SEEK"@[0] == 'S');
    assert("PONG"@[0] == 'P');
    assert("KICK"@[0] == 'K');
    assert("PING"@[0] == 'P');
}

/// How a `SYNC` message is dealt with.
pub(super) proof fn lemma_kind_sync(c: CoreView, n: JsonView)
    requires
        n.text_or("type"@, ""@) == "SYNC"@,
    ensures
        c.jam_received(n) == if c.who.is_host { c.asked(ContView::Sync) } else { c },
{
    reveal_strlit("SYNC");
    reveal_strlit("INIT");
    reveal_strlit("PLAY");
    reveal_strlit("PAUSE");
    reveal_strlit("PS");
    reveal_strlit("SEEK");
    reveal_strlit("SYNC_TICK");
    reveal_strlit("PONG");
    reveal_strlit("MEMBERS");
    reveal_strlit("GCTRL");
    reveal_strlit("Q");
    reveal_strlit("KICK");
    reveal_strlit("PING");
    reveal_strlit("JOIN");
    assert("SYNC"@.len() == 4);
    assert("INIT"@.len() == 4);
    assert("PLAY"@.len() == 4);
    assert("PAUSE"@.len() == 5);
    assert("PS"@.len() == 2);
    assert("SEEK"@.len() == 4);
    assert("SYNC_TICK"@.len() == 9);
    assert("PONG"@.len() == 4);
    assert("MEMBERS"@.len() == 7);
    assert("GCTRL"@.len() == 5);
    assert("Q"@.len() == 1);
    assert("KICK"@.len() == 4);
    assert("PING"@.len() == 4);
    assert("JOIN"@.len() == 4);
    assert("SYNC"@[0] == 'S');
    assert("INIT"@[0] == 'I');
    assert("PLAY"@[0] == 'P');
    assert("SYNC"@[1] == 'Y');
    assert("SEEK"@[1] == 'E');
    assert("PONG"@[0] == 'P');
    assert("KICK"@[0] == 'K');
    assert("PING"@[0] == 'P');
    assert("JOIN"@[0] == 'J');
}

/// How a `ADD_Q` message is dealt with.
pub(super) proof fn lemma_kind_add_q(c: CoreView, n: JsonView)
    requires
        n.text_or("type"@, ""@) == "ADD_Q"@,
    ensures
        c.jam_received(n) == if c.who.is_host { c.add_received(n) } else { c },
{
    reveal_strlit("ADD_Q");
    reveal_strlit("INIT");
    reveal_strlit("PLAY");
    reveal_strlit("PAUSE");
    reveal_strlit("PS");
    reveal_strlit("SEEK");
    reveal_strlit("SYNC_TICK");
    reveal_strlit("PONG");
    reveal_strlit("MEMBERS");
    reveal_strlit("GCTRL");
    reveal_strlit("Q");
    reveal_strlit("KICK");
    reveal_strlit("PING");
    reveal_strlit("JOIN");
    reveal_strlit("SYNC");
    assert("ADD_Q"@.len() == 5);
    assert("INIT"@.len() == 4);
    assert("PLAY"@.len() == 4);
    assert("PAUSE"@.len() == 5);
    assert("PS"@.len() == 2);
    assert("SEEK"@.len() == 4);
    assert("SYNC_TICK"@.len() == 9);
    assert("PONG"@.len() == 4);
    assert("MEMBERS"@.len() == 7);
    assert("GCTRL"@.len() == 5);
    assert("Q"@.len() == 1);
    assert("KICK"@.len() == 4);
    assert("PING"@.len() == 4);
    assert("JOIN"@.len() == 4);
    assert("SYNC"@.len() == 4);
    assert("ADD_Q"@[0] == 'A');
    assert("PAUSE"@[0] == 'P');
    assert("GCTRL"@[0] == 'G');
}

/// How a `RM_Q` message is dealt with.
pub(super) proof fn lemma_kind_rm_q(c: CoreView, n: JsonView)
    requires
        n.text_or("type"@, ""@) == "RM_Q"@,
    ensures
        c.jam_received(n) == if c.who.is_host { c.remove_received(n) } else { c },
{
    reveal_strlit("RM_Q");
    reveal_strlit("INIT");
    reveal_strlit("PLAY");
    reveal_strlit("PAUSE");
    reveal_strlit("PS");
    reveal_strlit("SEEK");
    reveal_strlit("SYNC_TICK");
    reveal_strlit("PONG");
    reveal_strlit("MEMBERS");
    reveal_strlit("GCTRL");
    reveal_strlit("Q");
    reveal_strlit("KICK");
    reveal_strlit("PING");
    reveal_strlit("JOIN");
    reveal_strlit("SYNC");
    reveal_strlit("ADD_Q");
    assert("RM_Q"@.len() == 4);
    assert("INIT"@.len() == 4);
    assert("PLAY"@.len() == 4);
    assert("PAUSE"@.len() == 5);
    assert("PS"@.len() == 2);
    assert("SEEK"@.len() == 4);
    assert("SYNC_TICK"@.len() == 9);
    assert("PONG"@.len() == 4);
    assert("MEMBERS"@.len() == 7);
    assert("GCTRL"@.len() == 5);
    assert("Q"@.len() == 1);
    assert("KICK"@.len() == 4);
    assert("PING"@.len() == 4);
    assert("JOIN"@.len() == 4);
    assert("SYNC"@.len() == 4);
    assert("ADD_Q"@.len() == 5);
    assert("RM_Q"@[0] == 'R');
    assert("INIT"@[0] == 'I');
    assert("PLAY"@[0] == 'P');
    assert("SEEK"@[0] == 'S');
    assert("PONG"@[0] == 'P');
    assert("KICK"@[0] == 'K');
    assert("PING"@[0] == 'P');
    assert("JOIN"@[0] == 'J');
    assert("SYNC"@[0] == 'S');
}

/// How a `MOVE_Q` message is dealt with.
pub(super) proof fn lemma_kind_move_q(c: CoreView, n: JsonView)
    requires
        n.text_or("type"@, ""@) == "MOVE_Q"@,
    ensures
        c.jam_received(n) == if c.who.is_host { c.move_received(n) } else { c },
{
    reveal_strlit("MOVE_Q");
    reveal_strlit("INIT");
    reveal_strlit("PLAY");
    reveal_strlit("PAUSE");
    reveal_strlit("PS");
    reveal_strlit("SEEK");
    reveal_strlit("SYNC_TICK");
    reveal_strlit("PONG");
    reveal_strlit("MEMBERS");
    reveal_strlit("GCTRL");
    reveal_strlit("Q");
    reveal_strlit("KICK");
    reveal_strlit("PING");
    reveal_strlit("JOIN");
    reveal_strlit("SYNC");
    reveal_strlit("ADD_Q");
    reveal_strlit("RM_Q");
    assert("MOVE_Q"@.len() == 6);
    assert("INIT"@.len() == 4);
    assert("PLAY"@.len() == 4);
    assert("PAUSE"@.len() == 5);
    assert("PS"@.len() == 2);
    assert("SEEK"@.len() == 4);
    assert("SYNC_TICK"@.len() == 9);
    assert("PONG"@.len() == 4);
    assert("MEMBERS"@.len() == 7);
    assert("GCTRL"@.len() == 5);
    assert("Q"@.len() == 1);
    assert("KICK"@.len() == 4);
    assert("PING"@.len() == 4);
    assert("JOIN"@.len() == 4);
    assert("SYNC"@.len() == 4);
    assert("ADD_Q"@.len() == 5);
    assert("RM_Q"@.len() == 4);
}

/// How a `CMD` message is dealt with.
pub(super) proof fn lemma_kind_cmd(c: CoreView, n: JsonView)
    requires
        n.text_or("type"@, ""@) == "CMD"@,
    ensures
        c.jam_received(n) == if c.who.is_host { c.command_received(n) } else { c },
{
    reveal_strlit("CMD");
    reveal_strlit("INIT");
    reveal_strlit("PLAY");
    reveal_strlit("PAUSE");
    reveal_strlit("PS");
    reveal_strlit("SEEK");
    reveal_strlit("SYNC_TICK");
    reveal_strlit("PONG");
    reveal_strlit("MEMBERS");
    reveal_strlit("GCTRL");
    reveal_strlit("Q");
    reveal_strlit("KICK");
    reveal_strlit("PING");
    reveal_strlit("JOIN");
    reveal_strlit("SYNC");
    reveal_strlit("ADD_Q");
    reveal_strlit("RM_Q");
    reveal_strlit("MOVE_Q");
    assert("CMD"@.len() == 3);
    assert("INIT"@.len() == 4);
    assert("PLAY"@.len() == 4);
    assert("PAUSE"@.len() == 5);
    assert("PS"@.len() == 2);
    assert("SEEK"@.len() == 4);
    assert("SYNC_TICK"@.len() == 9);
    assert("PONG"@.len() == 4);
    assert("MEMBERS"@.len() == 7);
    assert("GCTRL"@.len() == 5);
    assert("Q"@.len() == 1);
    assert("KICK"@.len() == 4);
    assert("PING"@.len() == 4);
    assert("JOIN"@.len() == 4);
    assert("SYNC"@.len() == 4);
    assert("ADD_Q"@.len() == 5);
    assert("RM_Q"@.len() == 4);
    assert("MOVE_Q"@.len() == 6);
}

/// A song is read from its JSON object as it was.
pub proof fn law_track_survives_json(t: TrackView)
    ensures
        track_of(track_json(t)) == Some(t),
{
    lemma_track_fields(t);
}

/// A queue is read from its JSON array as it was.
pub proof fn law_queue_survives_json(q: Seq<TrackView>)
    ensures
        tracks_of(queue_json(q)->Array_0) == q,
    decreases q.len(),
{
    let a = queue_json(q)->Array_0;
    if q.len() > 0 {
        law_queue_survives_json(q.drop_last());
        assert(a.drop_last() =~= queue_json(q.drop_last())->Array_0);
        law_track_survives_json(q.last());
        assert(q.drop_last().push(q.last()) =~= q);
    } else {
        assert(tracks_of(a) =~= q);
    }
}

/// A position that a message carries is read as it was.
pub(super) proof fn lemma_position(n: JsonView, k: Seq<char>, us: int)
    requires
        -0x10_0000_0000_0000 <= us <= 0x10_0000_0000_0000,
        n.get(k) == Some(millis_json(us)),
    ensures
        position_at(n, k) == Some(us as i64),
        position_or_zero(n, k) == us,
{
    law_position_survives_the_wire(us);
}

/// What the host announces, the guest takes over: the song, its position and whether it plays.
pub proof fn law_play_arrives(
    c: CoreView,
    dur: int,
    np: TrackView,
    paused: bool,
    pos: Option<int>,
    ts: int,
    uri: Seq<char>,
)
    requires
        pos matches Some(us) ==> -0x10_0000_0000_0000 <= us <= 0x10_0000_0000_0000,
        i64::MIN <= ts <= i64::MAX,
    ensures
        c.jam_received(play_json(dur, np, paused, pos, ts, uri)) == c.applied(
            uri,
            match pos {
                Some(us) => us as i64,
                None => 0,
            },
            ts as i64,
            paused,
            Some(np),
            false,
        ),
{
    let n = play_json(dur, np, paused, pos, ts, uri);
    lemma_play_fields(dur, np, paused, pos, ts, uri);
    lemma_kind_play(c, n);
    law_track_survives_json(np);
    if let Some(us) = pos {
        lemma_position(n, "pos"@, us);
    }
    reveal(CoreView::play_received);
}

/// A pause of the host's reaches the guest's player, and its target stands still.
pub proof fn law_pause_arrives(c: CoreView)
    ensures
        c.jam_received(typed("PAUSE"@)) == c.pause_received(),
        c.pause_received().follow.target matches Some(t) ==> !t.playing,
        !c.dry_run ==> c.pause_received().out == c.out.push(
            ActionView::Player(PlayerOpView::Pause),
        ),
{
    lemma_typed_fields("PAUSE"@);
    lemma_kind_pause(c, typed("PAUSE"@));
    reveal(CoreView::pause_received);
}

/// A play state of the host's reaches the guest.
pub proof fn law_play_state_arrives(c: CoreView, dur: int, p: bool, pos: int, ts: int)
    requires
        -0x10_0000_0000_0000 <= pos <= 0x10_0000_0000_0000,
    ensures
        ({
            let r = c.jam_received(play_state_json(dur, p, pos, ts));
            &&& r.follow.target matches Some(t) && t.pos_us == pos && t.playing == p && t.at
                == c.now()
            &&& r.shared.playing == p
            &&& r.shared.progress_us == pos
            &&& r.out == c.out
        }),
{
    let n = play_state_json(dur, p, pos, ts);
    lemma_play_state_fields(dur, p, pos, ts);
    lemma_kind_ps(c, n);
    lemma_position(n, "pos"@, pos);
    reveal(CoreView::play_state_received);
}

/// A position of the host's is measured drift by as it was sent.
pub proof fn law_sync_tick_arrives(c: CoreView, pos: int, ts: int)
    requires
        -0x10_0000_0000_0000 <= pos <= 0x10_0000_0000_0000,
        i64::MIN <= ts <= i64::MAX,
    ensures
        c.jam_received(sync_tick_json(pos, ts)) == c.drift_asked(pos as i64, ts as i64),
{
    let n = sync_tick_json(pos, ts);
    lemma_sync_tick_fields(pos, ts);
    lemma_kind_sync_tick(c, n);
    lemma_position(n, "pos"@, pos);
    reveal(CoreView::tick_received);
}

/// A ping is echoed, and its echo measures the time that has passed since.
pub proof fn law_ping_is_the_round_trip(c: CoreView, ts: int)
    requires
        i64::MIN <= ts <= i64::MAX,
    ensures
        c.jam_received(ping_json(ts)) == c.sent(pong_json(ts)),
        0 <= ts <= stamp_of(c.clock) ==> c.jam_received(pong_json(ts)).link.ping_ms == stamp_of(
            c.clock,
        ) - ts,
        c.jam_received(pong_json(ts)).shared.ping_ms == c.jam_received(pong_json(ts)).link.ping_ms,
{
    lemma_ping_fields(ts);
    lemma_kind_ping(c, ping_json(ts));
    reveal(CoreView::ping_received);
    lemma_pong_fields(ts);
    lemma_kind_pong(c, pong_json(ts));
    reveal(CoreView::pong_received);
}

/// The queue that the host broadcasts is the queue that the guest has.
pub proof fn law_queue_arrives(c: CoreView, q: Seq<TrackView>)
    ensures
        c.jam_received(queue_message_json(q)).queue == q,
        c.jam_received(queue_message_json(q)).shared.queue == q,
{
    lemma_queue_message_fields(q);
    lemma_kind_q(c, queue_message_json(q));
    law_queue_survives_json(q);
    reveal(CoreView::queue_received);
}

/// The host's permission reaches the guest.
pub proof fn law_guest_controls_arrive(c: CoreView, on: bool)
    ensures
        c.jam_received(guest_controls_json(on)).who.gc == on,
        c.jam_received(guest_controls_json(on)).shared.gc == on,
{
    lemma_guest_controls_fields(on);
    lemma_kind_gctrl(c, guest_controls_json(on));
    reveal(CoreView::permission_received);
}

/// A guest that joins is welcomed under its name.
pub proof fn law_join_arrives(c: CoreView, name: Seq<char>)
    requires
        c.who.is_host,
    ensures
        c.jam_received(join_json(name)).waiting == Some(ContView::Join { name }),
        c.jam_received(join_json(name)).who.guest_name == name,
{
    lemma_join_fields(name);
    lemma_kind_join(c, join_json(name));
    reveal(CoreView::join_received);
}

/// The listeners that the host names are the listeners that the guest shows.
pub proof fn law_members_arrive(c: CoreView, host: Seq<char>, guest: Seq<char>)
    ensures
        c.jam_received(members_json(host, guest)).shared.members == seq![
            MemberView { id: "host"@, name: host, is_host: true },
            MemberView { id: "guest"@, name: guest, is_host: false },
        ],
{
    let a = pair_json(host, guest)->Array_0;
    lemma_members_fields(host, guest);
    lemma_kind_members(c, members_json(host, guest));
    lemma_host_member_fields(host);
    lemma_guest_member_fields(guest);
    let g = guest_member_json(guest)->Object_0;
    reveal_strlit("isHost");
    reveal_strlit("id");
    reveal_strlit("image");
    reveal_strlit("name");
    assert("isHost"@.len() == 6);
    assert("id"@.len() == 2);
    assert("image"@.len() == 5);
    assert("name"@.len() == 4);
    lemma_no_entry(g, "isHost"@);
    reveal(CoreView::members_received);
    assert(members_of(a) =~= seq![
        MemberView { id: "host"@, name: host, is_host: true },
        MemberView { id: "guest"@, name: guest, is_host: false },
    ]);
}

/// A key that no entry has is not found.
pub(super) proof fn lemma_no_entry(o: Seq<(Seq<char>, JsonView)>, k: Seq<char>)
    requires
        forall|i: int| 0 <= i < o.len() ==> (#[trigger] o[i]).0 != k,
    ensures
        entry(o, k) is None,
    decreases o.len(),
{
    if o.len() > 0 {
        assert(o[0].0 != k);
        assert forall|i: int| 0 <= i < o.drop_first().len() implies (
        #[trigger] o.drop_first()[i]).0 != k by {
            assert(o.drop_first()[i] == o[i + 1]);
        }
        lemma_no_entry(o.drop_first(), k);
    }
}

/// What the host says of itself when a guest joins, the guest knows afterwards: its name, its
/// queue, whether the guest may control playback, and the song, which becomes the target.
pub proof fn law_init_arrives(
    c: CoreView,
    duration: int,
    gc: bool,
    host: Seq<char>,
    guest: Seq<char>,
    np: Option<TrackView>,
    playing: bool,
    progress: int,
    q: Seq<TrackView>,
)
    requires
        -0x10_0000_0000_0000 <= duration <= 0x10_0000_0000_0000,
        -0x10_0000_0000_0000 <= progress <= 0x10_0000_0000_0000,
    ensures
        ({
            let r = c.jam_received(
                init_json(duration, gc, host, guest, np, playing, progress, q),
            );
            &&& r.who.host_name == host
            &&& r.shared.host_name == host
            &&& r.who.gc == gc
            &&& r.shared.gc == gc
            &&& r.queue == q
            &&& r.shared.queue == q
            &&& r.shared.connected
            &&& r.out == c.out
            &&& r.shared.playing == playing
            &&& r.shared.progress_us == progress
            &&& r.shared.duration_us == duration
            &&& np matches Some(t) ==> {
                &&& r.shared.now_playing == Some(t)
                &&& r.follow.target == Some(
                    TargetView {
                        uri: t.uri,
                        title: t.title,
                        artist: t.artist,
                        pos_us: progress as i64,
                        at: c.clock.steady_ns,
                        playing,
                    },
                )
            }
            &&& np is None ==> r.follow.target == c.follow.target
        }),
{
    let n = init_json(duration, gc, host, guest, np, playing, progress, q);
    lemma_init_fields(duration, gc, host, guest, np, playing, progress, q);
    lemma_kind_init(c, n);
    law_queue_survives_json(q);
    lemma_position(n, "progress"@, progress);
    lemma_position(n, "duration"@, duration);
    if let Some(t) = np {
        law_track_survives_json(t);
    }
    reveal(CoreView::introduced);
    reveal(CoreView::song_introduced);
    reveal(CoreView::host_introduced);
}

/// A guest's play, pause and next reach the host's player where the guest may control playback.
pub proof fn law_command_arrives(c: CoreView, a: Seq<char>)
    requires
        c.who.is_host,
        c.who.gc,
        !c.dry_run,
        a == "play"@ || a == "pause"@ || a == "next"@,
    ensures
        ({
            let noted = c.logged("cmd from "@ + c.who.guest_name + ": "@ + a);
            c.jam_received(command_json(a)) == if a == "play"@ {
                noted.told(PlayerOpView::Play)
            } else if a == "pause"@ {
                noted.told(PlayerOpView::Pause)
            } else {
                noted.skipped()
            }
        }),
{
    lemma_command_fields(a);
    lemma_kind_cmd(c, command_json(a));
    reveal_strlit("play");
    reveal_strlit("pause");
    reveal_strlit("next");
    reveal_strlit("seek");
    reveal_strlit("playuri");
    assert("play"@.len() == 4);
    assert("pause"@.len() == 5);
    assert("next"@.len() == 4);
    assert("seek"@.len() == 4);
    assert("playuri"@.len() == 7);
    assert("next"@[0] == 'n');
    assert("play"@[0] == 'p');
    assert("seek"@[0] == 's');
    reveal(CoreView::command_received);
}

/// A song that a guest picks is looked up and played by the host where the guest may control
/// playback.
pub proof fn law_pick_arrives(c: CoreView, uri: Seq<char>)
    requires
        c.who.is_host,
        c.who.gc,
        !c.dry_run,
    ensures
        c.jam_received(play_uri_json(uri)) == c.logged(
            "cmd from "@ + c.who.guest_name + ": "@ + "playuri"@,
        ).looked_up(
            TrackView {
                uri,
                title: Seq::empty(),
                artist: Seq::empty(),
                art_url: Seq::empty(),
            },
            PurposeView::Play,
        ),
{
    lemma_play_uri_fields(uri);
    lemma_kind_cmd(c, play_uri_json(uri));
    reveal_strlit("play");
    reveal_strlit("pause");
    reveal_strlit("seek");
    reveal_strlit("playuri");
    assert("play"@.len() == 4);
    assert("pause"@.len() == 5);
    assert("seek"@.len() == 4);
    assert("playuri"@.len() == 7);
    reveal(CoreView::command_received);
}

/// A song that a guest adds, where guests may control playback, is looked up for the host's
/// queue, under the guest's name.
pub proof fn law_add_arrives(c: CoreView, name: Seq<char>, uri: Seq<char>)
    requires
        c.who.is_host,
        c.who.gc,
    ensures
        c.jam_received(add_to_queue_json(name, uri)) == c.looked_up(
            TrackView {
                uri,
                title: Seq::empty(),
                artist: Seq::empty(),
                art_url: Seq::empty(),
            },
            PurposeView::Queue(name),
        ),
{
    let n = add_to_queue_json(name, uri);
    let o = n->Object_0;
    lemma_add_to_queue_fields(name, uri);
    lemma_named_fields(name);
    lemma_kind_add_q(c, n);
    reveal_strlit("addedBy");
    reveal_strlit("type");
    reveal_strlit("uri");
    reveal_strlit("title");
    reveal_strlit("artist");
    reveal_strlit("artUrl");
    assert("addedBy"@.len() == 7);
    assert("type"@.len() == 4);
    assert("uri"@.len() == 3);
    assert("title"@.len() == 5);
    assert("artist"@.len() == 6);
    assert("artUrl"@.len() == 6);
    lemma_no_entry(o, "title"@);
    lemma_no_entry(o, "artist"@);
    lemma_no_entry(o, "artUrl"@);
    reveal_strlit("");
    assert(""@ =~= Seq::empty());
    reveal(CoreView::add_received);
}

/// A guest's request for the host's song makes the host look at its player.
pub proof fn law_sync_arrives(c: CoreView)
    requires
        c.who.is_host,
    ensures
        c.jam_received(typed("SYNC"@)) == c.asked(ContView::Sync),
{
    lemma_typed_fields("SYNC"@);
    lemma_kind_sync(c, typed("SYNC"@));
}

/// A guest follows the host's seek: its player goes to the position that was sent, made up for
/// the way there, and the host's song is known to be there.
pub proof fn law_seek_arrives(c: CoreView, n: JsonView)
    requires
        n.text_or("type"@, ""@) == "SEEK"@,
        !c.dry_run,
    ensures
        ({
            let pos = position_or_zero(n, "pos"@);
            let r = c.jam_received(n);
            &&& r.out == c.out.push(
                ActionView::Player(
                    PlayerOpView::Seek(onward(pos as int, c.way_us(c.sent_at(n)) as int)),
                ),
            )
            &&& c.follow.target matches Some(t) ==> r.follow.target == Some(
                TargetView { pos_us: pos, at: c.now(), ..t },
            )
        }),
{
    lemma_kind_seek(c, n);
    reveal(CoreView::sought);
}

/// A guest that the host removes leaves the session, and does not come back by itself.
pub proof fn law_kick_arrives(c: CoreView, n: JsonView)
    requires
        n.text_or("type"@, ""@) == "KICK"@,
    ensures
        ({
            let r = c.jam_received(n);
            &&& r.shared.mode == Mode::Idle
            &&& !r.shared.connected
            &&& r.peer is None
            &&& !r.signaling
            &&& r.link.reconnect_at is None
        }),
{
    lemma_kind_kick(c, n);
    reveal(CoreView::kicked);
    reveal(CoreView::left);
}

/// What only a host deals with, a guest passes over.
pub proof fn law_guest_ignores_requests(c: CoreView, n: JsonView)
    requires
        !c.who.is_host,
        ({
            let kind = n.text_or("type"@, ""@);
            kind == "JOIN"@ || kind == "SYNC"@ || kind == "ADD_Q"@ || kind == "RM_Q"@ || kind
                == "MOVE_Q"@ || kind == "CMD"@
        }),
    ensures
        c.jam_received(n) == c,
{
    let kind = n.text_or("type"@, ""@);
    if kind == "JOIN"@ {
        lemma_kind_join(c, n);
    } else if kind == "SYNC"@ {
        lemma_kind_sync(c, n);
    } else if kind == "ADD_Q"@ {
        lemma_kind_add_q(c, n);
    } else if kind == "RM_Q"@ {
        lemma_kind_rm_q(c, n);
    } else if kind == "MOVE_Q"@ {
        lemma_kind_move_q(c, n);
    } else {
        lemma_kind_cmd(c, n);
    }
}

/// A guest's command changes nothing where guests may not control playback, and neither does a
/// song that a guest adds.
pub proof fn law_commands_need_permission(c: CoreView, n: JsonView)
    requires
        n.text_or("type"@, ""@) == "CMD"@ || n.text_or("type"@, ""@) == "ADD_Q"@,
        !c.who.gc,
    ensures
        c.jam_received(n) == c,
{
    if n.text_or("type"@, ""@) == "CMD"@ {
        lemma_kind_cmd(c, n);
    } else {
        lemma_kind_add_q(c, n);
    }
    reveal(CoreView::command_received);
    reveal(CoreView::add_received);
}

/// The session after some frames of the data channel, one after another.
pub open spec fn frames_received(c: CoreView, f: Seq<Seq<u8>>) -> CoreView
    decreases f.len(),
{
    if f.len() == 0 {
        c
    } else {
        frames_received(c, f.drop_last()).frame_received(f.last())
    }
}

/// Frames that bring nothing leave all as it was but for the partial messages.
proof fn lemma_frames_bring_nothing(c: CoreView, f: Seq<Seq<u8>>)
    requires
        forall|i: int| 0 <= i < f.len() ==> (#[trigger] received(c.codec.table, f).1[i]) is None,
    ensures
        frames_received(c, f) == (CoreView {
            codec: CodecView { table: received(c.codec.table, f).0, ..c.codec },
            ..c
        }),
        received(c.codec.table, f).1.len() == f.len(),
    decreases f.len(),
{
    if f.len() > 0 {
        let g = f.drop_last();
        lemma_received_length(c.codec.table, g);
        lemma_received_length(c.codec.table, f);
        assert forall|i: int| 0 <= i < g.len() implies (#[trigger] received(
            c.codec.table,
            g,
        ).1[i]) is None by {
            assert(received(c.codec.table, f).1[i] == received(c.codec.table, g).1[i]);
        }
        lemma_frames_bring_nothing(c, g);
        assert(received(c.codec.table, f).1[f.len() - 1] is None);
        reveal(CoreView::frame_received);
    }
}

/// Each frame brings one thing.
proof fn lemma_received_length(t: Map<u64, crate::codec::PartialView>, f: Seq<Seq<u8>>)
    ensures
        received(t, f).1.len() == f.len(),
    decreases f.len(),
{
    if f.len() > 0 {
        lemma_received_length(t, f.drop_last());
    }
}

/// A message that one side sends over the data channel is what the other side deals with once
/// all its frames have arrived, however many they are.
pub proof fn law_message_crosses(c: CoreView, e: CoreView, msg: JsonView)
    requires
        c.channel(),
        speakable(msg),
        packable(unjson(msg)),
        message_bytes(msg).len() <= u64::MAX,
        message_bytes(msg).len() > CHUNKED_MTU ==> !e.codec.table.dom().contains(
            c.codec.sent.wrapping_add(1),
        ),
    ensures
        c.sent(msg).out == c.out.push(
            ActionView::Send {
                msg,
                frames: frames(message_bytes(msg), c.codec.sent.wrapping_add(1)),
            },
        ),
        frames_received(e, frames(message_bytes(msg), c.codec.sent.wrapping_add(1)))
            == e.jam_received(msg),
{
    let id = c.codec.sent.wrapping_add(1);
    let f = frames(message_bytes(msg), id);
    law_decode_encode(e.codec.table, msg, id);
    lemma_received_length(e.codec.table, f);
    assert(f.len() > 0);
    let g = f.drop_last();
    lemma_received_length(e.codec.table, g);
    assert forall|i: int| 0 <= i < g.len() implies (#[trigger] received(
        e.codec.table,
        g,
    ).1[i]) is None by {
        assert(received(e.codec.table, f).1[i] == received(e.codec.table, g).1[i]);
    }
    lemma_frames_bring_nothing(e, g);
    reveal(CoreView::frame_received);
    let last = delivered(received(e.codec.table, g).0, f.last());
    assert(received(e.codec.table, f).1.last() == last.1);
    assert(received(e.codec.table, f).0 == last.0);
    assert((CoreView {
        codec: CodecView { table: e.codec.table, ..e.codec },
        ..e
    }) == e);
}

} // verus!
