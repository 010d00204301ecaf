//! The messages that listeners and the signaling server are sent.
use crate::binary64::{millis, millis_bits};
use crate::json::{entries, group_json_views, items, object, string, Json, JsonView, Number};
use crate::text::option_view;
use crate::track::{
    queue_json, queue_to_json, track_json, track_to_json, track_views, Track, TrackView,
};
use vstd::prelude::*;

verus! {

/// A JSON integer.
pub open spec fn whole(n: int) -> JsonView {
    JsonView::Number(
        if n >= 0 {
            Number::PosInt(n as u64)
        } else {
            Number::NegInt(n as i64)
        },
    )
}

/// A JSON integer.
fn integer(n: i64) -> (r: Json)
    ensures
        r@ == whole(n as int),
{
    if n >= 0 {
        Json::Number(Number::PosInt(n as u64))
    } else {
        Json::Number(Number::NegInt(n))
    }
}

/// A position of some microseconds, in milliseconds.
pub open spec fn millis_json(us: int) -> JsonView {
    JsonView::Number(Number::Float(millis(us) as u64))
}

/// A position of some microseconds, in milliseconds.
fn position(us: i64) -> (r: Json)
    ensures
        r@ == millis_json(us as int),
{
    Json::Number(Number::Float(millis_bits(us)))
}

/// Adds a field behind the others.
fn field(f: &mut Vec<(String, Json)>, k: &str, v: Json)
    ensures
        entries(final(f)@) == entries(old(f)@).push((k@, v@)),
{
    let ghost before = entries(f@);
    let ghost vv = v@;
    f.push((k.to_owned(), v));
    assert(entries(f@) =~= before.push((k@, vv)));
}

/// A message that has nothing but its type.
pub open spec fn typed(kind: Seq<char>) -> JsonView {
    JsonView::Object(seq![("type"@, JsonView::Str(kind))])
}

/// A message that has nothing but its type.
pub fn bare(kind: &str) -> (r: Json)
    ensures
        r@ == typed(kind@),
{
    let mut f: Vec<(String, Json)> = Vec::new();
    field(&mut f, "type", string(kind));
    assert(entries(f@) =~= typed(kind@)->Object_0);
    object(f)
}

/// A song that may be missing: `null` stands for none.
pub open spec fn maybe_track(t: Option<TrackView>) -> JsonView {
    match t {
        Some(t) => track_json(t),
        None => JsonView::Null,
    }
}

/// A song that may be missing.
fn np_json(t: &Option<Track>) -> (r: Json)
    ensures
        r@ == maybe_track(option_view(*t)),
{
    match t {
        Some(t) => track_to_json(t),
        None => Json::Null,
    }
}

/// The position in a `PLAY`: a song that has just begun is at the integer zero.
pub open spec fn song_position(us: Option<int>) -> JsonView {
    match us {
        Some(us) => millis_json(us),
        None => whole(0),
    }
}

/// The view of an optional number.
pub open spec fn int_option(n: Option<i64>) -> Option<int> {
    match n {
        Some(n) => Some(n as int),
        None => None,
    }
}

/// The position in a `PLAY`.
fn start_position(us: Option<i64>) -> (r: Json)
    ensures
        r@ == song_position(int_option(us)),
{
    match us {
        Some(us) => position(us),
        None => integer(0),
    }
}

/// `PLAY`: the current song and its position.
pub open spec fn play_json(
    dur: int,
    np: TrackView,
    paused: bool,
    pos: Option<int>,
    ts: int,
    uri: Seq<char>,
) -> JsonView {
    JsonView::Object(
        seq![
            ("dur"@, millis_json(dur)),
            ("np"@, track_json(np)),
            ("paused"@, JsonView::Bool(paused)),
            ("pos"@, song_position(pos)),
            ("ts"@, whole(ts)),
            ("type"@, JsonView::Str("PLAY"@)),
            ("uri"@, JsonView::Str(uri)),
        ],
    )
}

/// `PLAY`: the current song and its position.
pub fn play(dur: i64, np: &Track, paused: bool, pos: Option<i64>, ts: i64, uri: &str) -> (r: Json)
    ensures
        r@ == play_json(dur as int, np@, paused, int_option(pos), ts as int, uri@),
{
    let mut f: Vec<(String, Json)> = Vec::new();
    field(&mut f, "dur", position(dur));
    field(&mut f, "np", track_to_json(np));
    field(&mut f, "paused", Json::Bool(paused));
    field(&mut f, "pos", start_position(pos));
    field(&mut f, "ts", integer(ts));
    field(&mut f, "type", string("PLAY"));
    field(&mut f, "uri", string(uri));
    assert(entries(f@) =~= play_json(
        dur as int,
        np@,
        paused,
        int_option(pos),
        ts as int,
        uri@,
    )->Object_0);
    object(f)
}

/// `PS`: whether the host plays, and where.
pub open spec fn play_state_json(dur: int, p: bool, pos: int, ts: int) -> JsonView {
    JsonView::Object(
        seq![
            ("dur"@, millis_json(dur)),
            ("p"@, JsonView::Bool(p)),
            ("pos"@, millis_json(pos)),
            ("ts"@, whole(ts)),
            ("type"@, JsonView::Str("PS"@)),
        ],
    )
}

/// `PS`: whether the host plays, and where.
pub fn play_state(dur: i64, p: bool, pos: i64, ts: i64) -> (r: Json)
    ensures
        r@ == play_state_json(dur as int, p, pos as int, ts as int),
{
    let mut f: Vec<(String, Json)> = Vec::new();
    field(&mut f, "dur", position(dur));
    field(&mut f, "p", Json::Bool(p));
    field(&mut f, "pos", position(pos));
    field(&mut f, "ts", integer(ts));
    field(&mut f, "type", string("PS"));
    assert(entries(f@) =~= play_state_json(dur as int, p, pos as int, ts as int)->Object_0);
    object(f)
}

/// `SYNC_TICK`: where the host is, to measure drift by.
pub open spec fn sync_tick_json(pos: int, ts: int) -> JsonView {
    JsonView::Object(
        seq![
            ("pos"@, millis_json(pos)),
            ("ts"@, whole(ts)),
            ("type"@, JsonView::Str("SYNC_TICK"@)),
        ],
    )
}

/// `SYNC_TICK`: where the host is, to measure drift by.
pub fn sync_tick(pos: i64, ts: i64) -> (r: Json)
    ensures
        r@ == sync_tick_json(pos as int, ts as int),
{
    let mut f: Vec<(String, Json)> = Vec::new();
    field(&mut f, "pos", position(pos));
    field(&mut f, "ts", integer(ts));
    field(&mut f, "type", string("SYNC_TICK"));
    assert(entries(f@) =~= sync_tick_json(pos as int, ts as int)->Object_0);
    object(f)
}

/// `PING`: asks for an echo of the timestamp.
pub open spec fn ping_json(ts: int) -> JsonView {
    JsonView::Object(
        seq![
            ("ts"@, whole(ts)),
            ("type"@, JsonView::Str("PING"@)),
        ],
    )
}

/// `PING`: asks for an echo of the timestamp.
pub fn ping(ts: i64) -> (r: Json)
    ensures
        r@ == ping_json(ts as int),
{
    let mut f: Vec<(String, Json)> = Vec::new();
    field(&mut f, "ts", integer(ts));
    field(&mut f, "type", string("PING"));
    assert(entries(f@) =~= ping_json(ts as int)->Object_0);
    object(f)
}

/// `PONG`: the echo of a timestamp.
pub open spec fn pong_json(ts: int) -> JsonView {
    JsonView::Object(
        seq![
            ("ts"@, whole(ts)),
            ("type"@, JsonView::Str("PONG"@)),
        ],
    )
}

/// `PONG`: the echo of a timestamp.
pub fn pong(ts: i64) -> (r: Json)
    ensures
        r@ == pong_json(ts as int),
{
    let mut f: Vec<(String, Json)> = Vec::new();
    field(&mut f, "ts", integer(ts));
    field(&mut f, "type", string("PONG"));
    assert(entries(f@) =~= pong_json(ts as int)->Object_0);
    object(f)
}

/// `JOIN`: a guest introduces itself.
pub open spec fn join_json(name: Seq<char>) -> JsonView {
    JsonView::Object(
        seq![
            ("image"@, JsonView::Str(""@)),
            ("name"@, JsonView::Str(name)),
            ("type"@, JsonView::Str("JOIN"@)),
        ],
    )
}

/// `JOIN`: a guest introduces itself.
pub fn join(name: &str) -> (r: Json)
    ensures
        r@ == join_json(name@),
{
    let mut f: Vec<(String, Json)> = Vec::new();
    field(&mut f, "image", string(""));
    field(&mut f, "name", string(name));
    field(&mut f, "type", string("JOIN"));
    assert(entries(f@) =~= join_json(name@)->Object_0);
    object(f)
}

/// `GCTRL`: whether guests may control playback.
pub open spec fn guest_controls_json(on: bool) -> JsonView {
    JsonView::Object(
        seq![
            ("on"@, JsonView::Bool(on)),
            ("type"@, JsonView::Str("GCTRL"@)),
        ],
    )
}

/// `GCTRL`: whether guests may control playback.
pub fn guest_controls(on: bool) -> (r: Json)
    ensures
        r@ == guest_controls_json(on),
{
    let mut f: Vec<(String, Json)> = Vec::new();
    field(&mut f, "on", Json::Bool(on));
    field(&mut f, "type", string("GCTRL"));
    assert(entries(f@) =~= guest_controls_json(on)->Object_0);
    object(f)
}

/// `Q`: the queue.
pub open spec fn queue_message_json(q: Seq<TrackView>) -> JsonView {
    JsonView::Object(
        seq![
            ("queue"@, queue_json(q)),
            ("type"@, JsonView::Str("Q"@)),
        ],
    )
}

/// `Q`: the queue.
pub fn queue(q: &Vec<Track>) -> (r: Json)
    ensures
        r@ == queue_message_json(track_views(q@)),
{
    let mut f: Vec<(String, Json)> = Vec::new();
    field(&mut f, "queue", queue_to_json(q));
    field(&mut f, "type", string("Q"));
    assert(entries(f@) =~= queue_message_json(track_views(q@))->Object_0);
    object(f)
}

/// `CMD`: a guest asks for play, pause or the next song.
pub open spec fn command_json(a: Seq<char>) -> JsonView {
    JsonView::Object(
        seq![
            ("a"@, JsonView::Str(a)),
            ("type"@, JsonView::Str("CMD"@)),
        ],
    )
}

/// `CMD`: a guest asks for play, pause or the next song.
pub fn command(a: &str) -> (r: Json)
    ensures
        r@ == command_json(a@),
{
    let mut f: Vec<(String, Json)> = Vec::new();
    field(&mut f, "a", string(a));
    field(&mut f, "type", string("CMD"));
    assert(entries(f@) =~= command_json(a@)->Object_0);
    object(f)
}

/// `CMD` with `playuri`: a guest asks for a song.
pub open spec fn play_uri_json(uri: Seq<char>) -> JsonView {
    JsonView::Object(
        seq![
            ("a"@, JsonView::Str("playuri"@)),
            ("type"@, JsonView::Str("CMD"@)),
            ("uri"@, JsonView::Str(uri)),
        ],
    )
}

/// `CMD` with `playuri`: a guest asks for a song.
pub fn play_uri(uri: &str) -> (r: Json)
    ensures
        r@ == play_uri_json(uri@),
{
    let mut f: Vec<(String, Json)> = Vec::new();
    field(&mut f, "a", string("playuri"));
    field(&mut f, "type", string("CMD"));
    field(&mut f, "uri", string(uri));
    assert(entries(f@) =~= play_uri_json(uri@)->Object_0);
    object(f)
}

/// Who adds a song.
pub open spec fn named_json(name: Seq<char>) -> JsonView {
    JsonView::Object(
        seq![
            ("image"@, JsonView::Str(""@)),
            ("name"@, JsonView::Str(name)),
        ],
    )
}

/// Who adds a song.
pub fn named(name: &str) -> (r: Json)
    ensures
        r@ == named_json(name@),
{
    let mut f: Vec<(String, Json)> = Vec::new();
    field(&mut f, "image", string(""));
    field(&mut f, "name", string(name));
    assert(entries(f@) =~= named_json(name@)->Object_0);
    object(f)
}

/// `ADD_Q`: a guest adds a song to the queue.
pub open spec fn add_to_queue_json(name: Seq<char>, uri: Seq<char>) -> JsonView {
    JsonView::Object(
        seq![
            ("addedBy"@, named_json(name)),
            ("type"@, JsonView::Str("ADD_Q"@)),
            ("uri"@, JsonView::Str(uri)),
        ],
    )
}

/// `ADD_Q`: a guest adds a song to the queue.
pub fn add_to_queue(name: &str, uri: &str) -> (r: Json)
    ensures
        r@ == add_to_queue_json(name@, uri@),
{
    let mut f: Vec<(String, Json)> = Vec::new();
    field(&mut f, "addedBy", named(name));
    field(&mut f, "type", string("ADD_Q"));
    field(&mut f, "uri", string(uri));
    assert(entries(f@) =~= add_to_queue_json(name@, uri@)->Object_0);
    object(f)
}

/// The host among the listeners.
pub open spec fn host_member_json(name: Seq<char>) -> JsonView {
    JsonView::Object(
        seq![
            ("id"@, JsonView::Str("host"@)),
            ("isHost"@, JsonView::Bool(true)),
            ("name"@, JsonView::Str(name)),
        ],
    )
}

/// The host among the listeners.
pub fn host_member(name: &str) -> (r: Json)
    ensures
        r@ == host_member_json(name@),
{
    let mut f: Vec<(String, Json)> = Vec::new();
    field(&mut f, "id", string("host"));
    field(&mut f, "isHost", Json::Bool(true));
    field(&mut f, "name", string(name));
    assert(entries(f@) =~= host_member_json(name@)->Object_0);
    object(f)
}

/// The guest among the listeners.
pub open spec fn guest_member_json(name: Seq<char>) -> JsonView {
    JsonView::Object(
        seq![
            ("id"@, JsonView::Str("guest"@)),
            ("image"@, JsonView::Str(""@)),
            ("name"@, JsonView::Str(name)),
        ],
    )
}

/// The guest among the listeners.
pub fn guest_member(name: &str) -> (r: Json)
    ensures
        r@ == guest_member_json(name@),
{
    let mut f: Vec<(String, Json)> = Vec::new();
    field(&mut f, "id", string("guest"));
    field(&mut f, "image", string(""));
    field(&mut f, "name", string(name));
    assert(entries(f@) =~= guest_member_json(name@)->Object_0);
    object(f)
}

/// The listeners of a Jam with one guest.
pub open spec fn pair_json(host: Seq<char>, guest: Seq<char>) -> JsonView {
    JsonView::Array(seq![host_member_json(host), guest_member_json(guest)])
}

/// The listeners of a Jam with one guest.
fn member_pair(host: &str, guest: &str) -> (r: Json)
    ensures
        r@ == pair_json(host@, guest@),
{
    let mut a: Vec<Json> = Vec::new();
    a.push(host_member(host));
    a.push(guest_member(guest));
    proof {
        broadcast use group_json_views;

        assert(items(a@) =~= pair_json(host@, guest@)->Array_0);
    }
    Json::Array(a)
}

/// `MEMBERS`: the listeners.
pub open spec fn members_json(host: Seq<char>, guest: Seq<char>) -> JsonView {
    JsonView::Object(
        seq![
            ("members"@, pair_json(host, guest)),
            ("type"@, JsonView::Str("MEMBERS"@)),
        ],
    )
}

/// `MEMBERS`: the listeners.
pub fn members(host: &str, guest: &str) -> (r: Json)
    ensures
        r@ == members_json(host@, guest@),
{
    let mut f: Vec<(String, Json)> = Vec::new();
    field(&mut f, "members", member_pair(host, guest));
    field(&mut f, "type", string("MEMBERS"));
    assert(entries(f@) =~= members_json(host@, guest@)->Object_0);
    object(f)
}

/// `INIT`: what a guest is told when it joins.
pub open spec fn init_json(
    duration: int,
    gc: bool,
    host: Seq<char>,
    guest: Seq<char>,
    np: Option<TrackView>,
    playing: bool,
    progress: int,
    q: Seq<TrackView>,
) -> JsonView {
    JsonView::Object(
        seq![
            ("duration"@, millis_json(duration)),
            ("gc"@, JsonView::Bool(gc)),
            ("host"@, JsonView::Str(host)),
            ("members"@, pair_json(host, guest)),
            ("np"@, maybe_track(np)),
            ("playing"@, JsonView::Bool(playing)),
            ("progress"@, millis_json(progress)),
            ("queue"@, queue_json(q)),
            ("type"@, JsonView::Str("INIT"@)),
        ],
    )
}

/// `INIT`: what a guest is told when it joins.
pub fn init(
    duration: i64,
    gc: bool,
    host: &str,
    guest: &str,
    np: &Option<Track>,
    playing: bool,
    progress: i64,
    q: &Vec<Track>,
) -> (r: Json)
    ensures
        r@ == init_json(
            duration as int,
            gc,
            host@,
            guest@,
            option_view(*np),
            playing,
            progress as int,
            track_views(q@),
        ),
{
    let mut f: Vec<(String, Json)> = Vec::new();
    field(&mut f, "duration", position(duration));
    field(&mut f, "gc", Json::Bool(gc));
    field(&mut f, "host", string(host));
    field(&mut f, "members", member_pair(host, guest));
    field(&mut f, "np", np_json(np));
    field(&mut f, "playing", Json::Bool(playing));
    field(&mut f, "progress", position(progress));
    field(&mut f, "queue", queue_to_json(q));
    field(&mut f, "type", string("INIT"));
    assert(entries(f@) =~= init_json(
        duration as int,
        gc,
        host@,
        guest@,
        option_view(*np),
        playing,
        progress as int,
        track_views(q@),
    )->Object_0);
    object(f)
}

/// An empty object.
pub open spec fn empty_json() -> JsonView {
    JsonView::Object(Seq::empty())
}

/// An empty object.
pub fn empty_object() -> (r: Json)
    ensures
        r@ == empty_json(),
{
    let mut f: Vec<(String, Json)> = Vec::new();

    assert(entries(f@) =~= empty_json()->Object_0);
    object(f)
}

/// What an `OFFER` carries.
pub open spec fn offer_payload_json(connection: Seq<char>, sdp: JsonView) -> JsonView {
    JsonView::Object(
        seq![
            ("connectionId"@, JsonView::Str(connection)),
            ("label"@, JsonView::Str(connection)),
            ("metadata"@, empty_json()),
            ("reliable"@, JsonView::Bool(true)),
            ("sdp"@, sdp),
            ("serialization"@, JsonView::Str("binary"@)),
            ("type"@, JsonView::Str("data"@)),
        ],
    )
}

/// What an `OFFER` carries.
pub fn offer_payload(connection: &str, sdp: &Json) -> (r: Json)
    ensures
        r@ == offer_payload_json(connection@, sdp@),
{
    let mut f: Vec<(String, Json)> = Vec::new();
    field(&mut f, "connectionId", string(connection));
    field(&mut f, "label", string(connection));
    field(&mut f, "metadata", empty_object());
    field(&mut f, "reliable", Json::Bool(true));
    field(&mut f, "sdp", sdp.clone());
    field(&mut f, "serialization", string("binary"));
    field(&mut f, "type", string("data"));
    assert(entries(f@) =~= offer_payload_json(connection@, sdp@)->Object_0);
    object(f)
}

/// What an `ANSWER` carries.
pub open spec fn answer_payload_json(connection: Seq<char>, sdp: JsonView) -> JsonView {
    JsonView::Object(
        seq![
            ("connectionId"@, JsonView::Str(connection)),
            ("sdp"@, sdp),
            ("type"@, JsonView::Str("data"@)),
        ],
    )
}

/// What an `ANSWER` carries.
pub fn answer_payload(connection: &str, sdp: &Json) -> (r: Json)
    ensures
        r@ == answer_payload_json(connection@, sdp@),
{
    let mut f: Vec<(String, Json)> = Vec::new();
    field(&mut f, "connectionId", string(connection));
    field(&mut f, "sdp", sdp.clone());
    field(&mut f, "type", string("data"));
    assert(entries(f@) =~= answer_payload_json(connection@, sdp@)->Object_0);
    object(f)
}

/// An ICE candidate.
pub open spec fn ice_candidate_json(candidate: Seq<char>, mid: Seq<char>) -> JsonView {
    JsonView::Object(
        seq![
            ("candidate"@, JsonView::Str(candidate)),
            ("sdpMLineIndex"@, whole(0)),
            ("sdpMid"@, JsonView::Str(mid)),
        ],
    )
}

/// An ICE candidate.
pub fn ice_candidate(candidate: &str, mid: &str) -> (r: Json)
    ensures
        r@ == ice_candidate_json(candidate@, mid@),
{
    let mut f: Vec<(String, Json)> = Vec::new();
    field(&mut f, "candidate", string(candidate));
    field(&mut f, "sdpMLineIndex", integer(0));
    field(&mut f, "sdpMid", string(mid));
    assert(entries(f@) =~= ice_candidate_json(candidate@, mid@)->Object_0);
    object(f)
}

/// What a `CANDIDATE` carries.
pub open spec fn candidate_payload_json(
    candidate: Seq<char>,
    mid: Seq<char>,
    connection: Seq<char>,
) -> JsonView {
    JsonView::Object(
        seq![
            ("candidate"@, ice_candidate_json(candidate, mid)),
            ("connectionId"@, JsonView::Str(connection)),
            ("type"@, JsonView::Str("data"@)),
        ],
    )
}

/// What a `CANDIDATE` carries.
pub fn candidate_payload(candidate: &str, mid: &str, connection: &str) -> (r: Json)
    ensures
        r@ == candidate_payload_json(candidate@, mid@, connection@),
{
    let mut f: Vec<(String, Json)> = Vec::new();
    field(&mut f, "candidate", ice_candidate(candidate, mid));
    field(&mut f, "connectionId", string(connection));
    field(&mut f, "type", string("data"));
    assert(entries(f@) =~= candidate_payload_json(candidate@, mid@, connection@)->Object_0);
    object(f)
}

/// A message to another peer, by way of the signaling server.
pub open spec fn signal_json(dst: Seq<char>, payload: JsonView, kind: Seq<char>) -> JsonView {
    JsonView::Object(
        seq![
            ("dst"@, JsonView::Str(dst)),
            ("payload"@, payload),
            ("type"@, JsonView::Str(kind)),
        ],
    )
}

/// A message to another peer, by way of the signaling server.
pub fn signal(dst: &str, payload: &Json, kind: &str) -> (r: Json)
    ensures
        r@ == signal_json(dst@, payload@, kind@),
{
    let mut f: Vec<(String, Json)> = Vec::new();
    field(&mut f, "dst", string(dst));
    field(&mut f, "payload", payload.clone());
    field(&mut f, "type", string(kind));
    assert(entries(f@) =~= signal_json(dst@, payload@, kind@)->Object_0);
    object(f)
}

} // verus!
