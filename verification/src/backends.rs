//! How each kind of player is spoken to, and what it says.
use crate::binary64::{between_zero_and, hold, held, is_between_zero_and};
use crate::document::{parse, parsed};
use crate::jam::{PlayerOp, PlayerOpView};
use crate::json::{entries, group_json_views, items, object, string, Json, JsonView, Number};
use crate::player::{PlayerState, PlayerStateView};
use crate::text::{
    after_last, alike, begins, begins_with, behind, contains, dec, decimal, ends, ends_with,
    first_line, first_line_of, is_empty, lowercase, lowered, occurs, option_view, parts, same,
    same_ignoring_case, split, strip_prefixes, strip_suffixes, texts, without_prefixes,
    without_suffixes,
};
use vstd::prelude::*;

verus! {

/// What the uri of a song of the catalogue begins with.
pub const TRACK_PREFIX: &'static str = "spotify:track:";

/// The whole seconds of a position, none for one before the start.
pub open spec fn whole_seconds(us: int) -> nat {
    if us < 0 {
        0
    } else {
        us as nat / 1_000_000
    }
}

/// The whole seconds of a position.
pub fn seconds(us: i64) -> (r: u64)
    ensures
        r == whole_seconds(us as int),
{
    if us < 0 {
        0
    } else {
        us as u64 / 1_000_000
    }
}

// ---------------------------------------------------------------------------
// players on the session bus
// ---------------------------------------------------------------------------
/// The name of a player on the session bus.
pub open spec fn bus_name_of(suffix: Seq<char>) -> Seq<char> {
    "org.mpris.MediaPlayer2."@ + suffix
}

/// The name of a player on the session bus.
pub fn bus_name(suffix: &str) -> (r: String)
    ensures
        r@ == bus_name_of(suffix@),
{
    let mut s = "org.mpris.MediaPlayer2.".to_owned();
    s.append(suffix);
    s
}

/// A value of the bus without its envelope.
pub open spec fn bare_value(m: JsonView) -> JsonView {
    match m.get("value"@) {
        Some(v) => v,
        None => m,
    }
}

/// A value of the bus without its envelope.
fn unwrap_value(m: &Json) -> (r: &Json)
    ensures
        r@ == bare_value(m@),
{
    match m.get("value") {
        Some(v) => v,
        None => m,
    }
}

/// A text of a song's metadata.
pub open spec fn meta_text(m: JsonView, k: Seq<char>) -> Option<Seq<char>> {
    match bare_value(m).get(k) {
        Some(v) => v.text_at("value"@),
        None => None,
    }
}

/// A text of a song's metadata.
fn read_meta_text(m: &Json, k: &str) -> (r: Option<String>)
    ensures
        option_view(r) == meta_text(m@, k@),
{
    match unwrap_value(m).get(k) {
        Some(v) => match v.str_at("value") {
            Some(s) => Some(s.to_owned()),
            None => None,
        },
        None => None,
    }
}

/// A text of a song's metadata; a missing one is empty.
pub open spec fn meta_text_or_empty(m: JsonView, k: Seq<char>) -> Seq<char> {
    match meta_text(m, k) {
        Some(s) => s,
        None => Seq::empty(),
    }
}

/// A text of a song's metadata; a missing one is empty.
fn read_meta_text_or_empty(m: &Json, k: &str) -> (r: String)
    ensures
        r@ == meta_text_or_empty(m@, k@),
{
    match read_meta_text(m, k) {
        Some(s) => s,
        None => String::new(),
    }
}

/// The length of a song in microseconds; a missing one is nothing.
pub open spec fn meta_length(m: JsonView) -> i64 {
    match bare_value(m).get("mpris:length"@) {
        Some(v) => match v.scaled_at("value"@, 1) {
            Some(n) => n as i64,
            None => 0,
        },
        None => 0,
    }
}

/// The length of a song in microseconds.
fn read_meta_length(m: &Json) -> (r: i64)
    ensures
        r == meta_length(m@),
{
    match unwrap_value(m).get("mpris:length") {
        Some(v) => match v.scaled_at("value", 1) {
            Some(n) => n,
            None => 0,
        },
        None => 0,
    }
}

/// The texts of an array, with a comma and a space between them; other values are left out.
pub open spec fn listed(a: Seq<JsonView>) -> Seq<char>
    decreases a.len(),
{
    if a.len() == 0 {
        Seq::empty()
    } else {
        match a.last().text() {
            Some(s) => if texts_in(a.drop_last()) == 0 {
                s
            } else {
                listed(a.drop_last()) + ", "@ + s
            },
            None => listed(a.drop_last()),
        }
    }
}

/// How many texts an array has.
pub open spec fn texts_in(a: Seq<JsonView>) -> nat
    decreases a.len(),
{
    if a.len() == 0 {
        0
    } else if a.last().text() is Some {
        texts_in(a.drop_last()) + 1
    } else {
        texts_in(a.drop_last())
    }
}

/// The texts of an array, with a comma and a space between them.
fn list(a: &Vec<Json>) -> (r: String)
    ensures
        r@ == listed(items(a@)),
{
    let ghost v = items(a@);
    let n: usize = a.len();
    let mut r = String::new();
    let mut some = false;
    let mut i: usize = 0;
    assert(v.take(0) =~= Seq::empty());
    while i < n
        invariant
            n == a@.len(),
            i <= n,
            v == items(a@),
            r@ == listed(v.take(i as int)),
            some == (texts_in(v.take(i as int)) > 0),
        decreases n - i,
    {
        proof {
            assert(v.take(i as int + 1).drop_last() =~= v.take(i as int));
            assert(v.take(i as int + 1).last() == a@[i as int]@);
        }
        if let Some(s) = a[i].as_str() {
            if some {
                r.append(", ");
                r.append(s);
            } else {
                r = s.to_owned();
            }
            some = true;
        }
        i = i + 1;
    }
    assert(v.take(n as int) =~= v);
    r
}

/// The artists of a song.
pub open spec fn meta_artists(m: JsonView) -> Seq<char> {
    match bare_value(m).get("xesam:artist"@) {
        Some(v) => match v.array_at("value"@) {
            Some(a) => listed(a),
            None => Seq::empty(),
        },
        None => Seq::empty(),
    }
}

/// The artists of a song.
fn read_meta_artists(m: &Json) -> (r: String)
    ensures
        r@ == meta_artists(m@),
{
    proof {
        broadcast use group_json_views;

    }
    match unwrap_value(m).get("xesam:artist") {
        Some(v) => match v.array_at("value") {
            Some(a) => list(a),
            None => String::new(),
        },
        None => String::new(),
    }
}

/// The uri of a song: its address where that is one of the catalogue, or else the last part of
/// its track id.
pub open spec fn meta_uri(m: JsonView) -> Seq<char> {
    match meta_text(m, "xesam:url"@) {
        Some(u) if begins(u, TRACK_PREFIX@) => u,
        _ => match meta_text(m, "mpris:trackid"@) {
            Some(t) => TRACK_PREFIX@ + behind(t, "/_"@),
            None => Seq::empty(),
        },
    }
}

/// The uri of a song.
fn read_meta_uri(m: &Json) -> (r: String)
    ensures
        r@ == meta_uri(m@),
{
    if let Some(u) = read_meta_text(m, "xesam:url") {
        if begins_with(u.as_str(), TRACK_PREFIX) {
            return u;
        }
    }
    match read_meta_text(m, "mpris:trackid") {
        Some(t) => {
            let mut s = TRACK_PREFIX.to_owned();
            s.append(after_last(t.as_str(), "/_").as_str());
            s
        },
        None => String::new(),
    }
}

/// What a player on the session bus is doing.
pub open spec fn mpris_view(status: Seq<char>, position_us: i64, m: JsonView) -> PlayerStateView {
    PlayerStateView {
        playing: status == "Playing"@,
        position_us: held(position_us as int) as i64,
        duration_us: meta_length(m),
        uri: meta_uri(m),
        title: meta_text_or_empty(m, "xesam:title"@),
        artist: meta_artists(m),
        art_url: meta_text_or_empty(m, "mpris:artUrl"@),
    }
}

/// What a player on the session bus is doing, from its status, position and metadata.
pub fn mpris_state(status: &str, position_us: i64, meta: &Json) -> (r: PlayerState)
    ensures
        r@ == mpris_view(status@, position_us, meta@),
{
    PlayerState {
        playing: same(status, "Playing"),
        position_us: hold(position_us as i128),
        duration_us: read_meta_length(meta),
        uri: read_meta_uri(meta),
        title: read_meta_text_or_empty(meta, "xesam:title"),
        artist: read_meta_artists(meta),
        art_url: read_meta_text_or_empty(meta, "mpris:artUrl"),
    }
}

/// The track id in a song's metadata.
pub fn mpris_track_id(meta: &Json) -> (r: Option<String>)
    ensures
        option_view(r) == meta_text(meta@, "mpris:trackid"@),
{
    read_meta_text(meta, "mpris:trackid")
}

/// What a player on the session bus is called with.
#[derive(Debug)]
pub enum MprisCall {
    OpenUri(String),
    SetPosition { track_id: String, position_us: i64 },
    Play,
    Pause,
    Next,
    /// There is nothing to call.
    Nothing,
}

/// What a player on the session bus is called with.
pub enum MprisCallView {
    OpenUri(Seq<char>),
    SetPosition { track_id: Seq<char>, position_us: i64 },
    Play,
    Pause,
    Next,
    Nothing,
}

impl View for MprisCall {
    type V = MprisCallView;

    open spec fn view(&self) -> MprisCallView {
        match self {
            MprisCall::OpenUri(u) => MprisCallView::OpenUri(u@),
            MprisCall::SetPosition { track_id, position_us } => MprisCallView::SetPosition {
                track_id: track_id@,
                position_us: *position_us,
            },
            MprisCall::Play => MprisCallView::Play,
            MprisCall::Pause => MprisCallView::Pause,
            MprisCall::Next => MprisCallView::Next,
            MprisCall::Nothing => MprisCallView::Nothing,
        }
    }
}

/// The whole milliseconds of a position in microseconds, from the start on.
pub open spec fn floor_ms(us: int) -> int {
    if us < 0 {
        0
    } else {
        us / 1000 * 1000
    }
}

/// The call that tells a player on the session bus something. An empty uri is never opened, as
/// that would start the current song again, and a seek needs to know the song.
pub fn mpris_call(op: &PlayerOp, track_id: &Option<String>) -> (r: MprisCall)
    ensures
        r@ == match op@ {
            PlayerOpView::Play => MprisCallView::Play,
            PlayerOpView::Pause => MprisCallView::Pause,
            PlayerOpView::Next => MprisCallView::Next,
            PlayerOpView::Seek(us) => match option_view(*track_id) {
                Some(t) => MprisCallView::SetPosition {
                    track_id: t,
                    position_us: floor_ms(us as int) as i64,
                },
                None => MprisCallView::Nothing,
            },
            PlayerOpView::Open { uri, .. } => if uri.len() == 0 {
                MprisCallView::Nothing
            } else {
                MprisCallView::OpenUri(uri)
            },
        },
{
    match op {
        PlayerOp::Play => MprisCall::Play,
        PlayerOp::Pause => MprisCall::Pause,
        PlayerOp::Next => MprisCall::Next,
        PlayerOp::Seek(us) => match track_id {
            Some(t) => {
                let us: i64 = *us;
                let position_us: i64 = if us < 0 {
                    0
                } else {
                    us / 1000 * 1000
                };
                MprisCall::SetPosition { track_id: t.clone(), position_us }
            },
            None => MprisCall::Nothing,
        },
        PlayerOp::Open { uri, .. } => if is_empty(uri.as_str()) {
            MprisCall::Nothing
        } else {
            MprisCall::OpenUri(uri.clone())
        },
    }
}

/// The player's list of tracks, which is optional on the bus: whether it is there is found out
/// once.
#[derive(Debug)]
pub struct TrackList {
    there: Option<bool>,
}

impl View for TrackList {
    type V = Option<bool>;

    closed spec fn view(&self) -> Option<bool> {
        self.there
    }
}

impl TrackList {
    /// Nothing is known yet.
    pub fn new() -> (r: TrackList)
        ensures
            r@ is None,
    {
        TrackList { there: None }
    }

    /// Whether it is there, where that is known.
    pub fn known(&self) -> (r: Option<bool>)
        ensures
            r == self@,
    {
        self.there
    }

    /// Takes in what the player says of its interfaces, and tells whether the list is there.
    pub fn probed(&mut self, xml: Option<&str>) -> (r: bool)
        ensures
            r == (xml matches Some(x) && occurs(x@, "org.mpris.MediaPlayer2.TrackList"@)),
            final(self)@ == Some(r),
    {
        let there = match xml {
            Some(x) => contains(x, "org.mpris.MediaPlayer2.TrackList"),
            None => false,
        };
        self.there = Some(there);
        there
    }

    /// Notes that the list cannot be had.
    pub fn failed(&mut self)
        ensures
            final(self)@ == Some(false),
    {
        self.there = Some(false);
    }
}

/// The track behind which a song is added.
pub fn add_after(track_id: &Option<String>) -> (r: String)
    ensures
        r@ == match option_view(*track_id) {
            Some(t) => t,
            None => "/org/mpris/MediaPlayer2/TrackList/NoTrack"@,
        },
{
    match track_id {
        Some(t) => t.clone(),
        None => "/org/mpris/MediaPlayer2/TrackList/NoTrack".to_owned(),
    }
}

// ---------------------------------------------------------------------------
// cliamp
// ---------------------------------------------------------------------------
/// A path behind a directory that may not be known.
pub open spec fn under(dir: Option<Seq<char>>, rest: Seq<char>) -> Seq<Seq<char>> {
    match dir {
        Some(d) => seq![d + rest],
        None => Seq::empty(),
    }
}

/// The view of a text that may be missing.
pub open spec fn str_option(o: Option<&str>) -> Option<Seq<char>> {
    match o {
        Some(s) => Some(s@),
        None => None,
    }
}

/// Adds a path behind a directory that may not be known.
fn push_under(v: &mut Vec<String>, dir: Option<&str>, rest: &str)
    ensures
        texts(final(v)@) == texts(old(v)@) + under(str_option(dir), rest@),
{
    let ghost before = texts(v@);
    match dir {
        Some(d) => {
            let mut s = d.to_owned();
            s.append(rest);
            let ghost sv = s@;
            v.push(s);
            assert(texts(v@) =~= before + seq![sv]);
        },
        None => {
            assert(before + Seq::<Seq<char>>::empty() =~= before);
        },
    }
}

/// Adds a path.
fn push_path(v: &mut Vec<String>, p: &str)
    ensures
        texts(final(v)@) == texts(old(v)@).push(p@),
{
    let ghost before = texts(v@);
    v.push(p.to_owned());
    assert(texts(v@) =~= before.push(p@));
}

/// Where programs are on this machine, as far as it is known.
#[derive(Debug)]
pub struct Places {
    /// The program of the running player.
    pub running: Option<String>,
    pub local_app_data: Option<String>,
    pub program_files: Option<String>,
    pub user_profile: Option<String>,
}

/// Where programs are on this machine.
pub struct PlacesView {
    pub running: Option<Seq<char>>,
    pub local_app_data: Option<Seq<char>>,
    pub program_files: Option<Seq<char>>,
    pub user_profile: Option<Seq<char>>,
}

impl View for Places {
    type V = PlacesView;

    open spec fn view(&self) -> PlacesView {
        PlacesView {
            running: option_view(self.running),
            local_app_data: option_view(self.local_app_data),
            program_files: option_view(self.program_files),
            user_profile: option_view(self.user_profile),
        }
    }
}

/// A text that may be missing.
fn as_option(o: &Option<String>) -> (r: Option<&str>)
    ensures
        str_option(r) == option_view(*o),
{
    match o {
        Some(s) => Some(s.as_str()),
        None => None,
    }
}

/// The programs that are tried first: the configured one and the running one. Where none is
/// configured, the player's usual name stands for it, which is looked for on the path, behind
/// the running one.
pub open spec fn first_tries(
    configured: Option<Seq<char>>,
    running: Option<Seq<char>>,
    usual: Seq<char>,
) -> Seq<Seq<char>> {
    let run = match running {
        Some(p) => seq![p],
        None => Seq::empty(),
    };
    match configured {
        Some(b) => seq![b] + run,
        None => run + seq![usual],
    }
}

/// The programs that are tried first.
fn begin_tries(configured: &Option<String>, running: &Option<String>, usual: &str) -> (r: Vec<
    String,
>)
    ensures
        texts(r@) == first_tries(option_view(*configured), option_view(*running), usual@),
{
    let mut v: Vec<String> = Vec::new();
    if let Some(b) = configured {
        push_path(&mut v, b.as_str());
    }
    if let Some(p) = running {
        push_path(&mut v, p.as_str());
    }
    if configured.is_none() {
        push_path(&mut v, usual);
    }
    assert(texts(v@) =~= first_tries(option_view(*configured), option_view(*running), usual@));
    v
}

/// cliamp, spoken to by its program.
#[derive(Debug)]
pub struct CliampPlayer {
    bin: Option<String>,
}

impl View for CliampPlayer {
    /// The configured program, if there is one.
    type V = Option<Seq<char>>;

    closed spec fn view(&self) -> Option<Seq<char>> {
        option_view(self.bin)
    }
}

impl CliampPlayer {
    /// cliamp by the configured program, if there is one.
    pub fn new(bin: Option<String>) -> (r: CliampPlayer)
        ensures
            r@ == option_view(bin),
    {
        CliampPlayer { bin }
    }

    /// The programs to try, in order: the configured one, the running one, those on the path, and
    /// those in the usual places.
    pub fn candidate_paths(&self, places: &Places) -> (r: Vec<String>)
        ensures
            texts(r@) == first_tries(self@, places@.running, "cliamp"@) + seq![
                "cliamp"@,
                "cliampd"@,
            ] + under(places@.local_app_data, "\\Programs\\cliamp\\cliamp.exe"@) + under(
                places@.program_files,
                "\\cliamp\\cliamp.exe"@,
            ) + under(places@.user_profile, "\\scoop\\shims\\cliamp.exe"@),
    {
        let mut v = begin_tries(&self.bin, &places.running, "cliamp");
        let ghost first = texts(v@);
        push_path(&mut v, "cliamp");
        push_path(&mut v, "cliampd");
        assert(texts(v@) =~= first + seq!["cliamp"@, "cliampd"@]);
        push_under(
            &mut v,
            as_option(&places.local_app_data),
            "\\Programs\\cliamp\\cliamp.exe",
        );
        push_under(&mut v, as_option(&places.program_files), "\\cliamp\\cliamp.exe");
        push_under(&mut v, as_option(&places.user_profile), "\\scoop\\shims\\cliamp.exe");
        v
    }
}

/// A song's length in seconds, in microseconds; one that cannot be right is nothing.
pub open spec fn sane_length(n: Number) -> i64 {
    let sane = match n {
        Number::PosInt(n) => n <= 86400,
        Number::NegInt(_) => false,
        Number::Float(b) => between_zero_and(b, 86400),
    };
    if sane {
        n.times(1_000_000) as i64
    } else {
        0
    }
}

/// A song's length in seconds, in microseconds.
fn read_length(n: Number) -> (r: i64)
    ensures
        r == sane_length(n),
{
    let sane = match n {
        Number::PosInt(n) => n <= 86400,
        Number::NegInt(_) => false,
        Number::Float(b) => is_between_zero_and(b, 86400),
    };
    if sane {
        n.to_scale(1_000_000)
    } else {
        0
    }
}

/// The song in cliamp's status.
pub open spec fn cliamp_track(v: JsonView) -> JsonView {
    match v.get("track"@) {
        Some(t) => t,
        None => JsonView::Null,
    }
}

/// What cliamp is doing.
pub open spec fn cliamp_view(v: JsonView) -> PlayerStateView {
    let t = cliamp_track(v);
    let path = t.text_or("path"@, ""@);
    PlayerStateView {
        playing: v.text_at("state"@) == Some("playing"@),
        position_us: match v.scaled_at("position"@, 1_000_000) {
            Some(n) => n as i64,
            None => 0,
        },
        duration_us: match v.number_at("duration"@) {
            Some(n) => sane_length(n),
            None => 0,
        },
        uri: if begins(path, TRACK_PREFIX@) {
            path
        } else {
            Seq::empty()
        },
        title: t.text_or("title"@, ""@),
        artist: t.text_or("artist"@, ""@),
        art_url: Seq::empty(),
    }
}

/// What cliamp is doing, from its status.
pub fn cliamp_state(v: &Json) -> (r: PlayerState)
    ensures
        r@ == cliamp_view(v@),
{
    let nothing = Json::Null;
    let t = match v.get("track") {
        Some(t) => t,
        None => &nothing,
    };
    let path = t.str_or("path", "");
    let playing = match v.str_at("state") {
        Some(s) => same(s, "playing"),
        None => false,
    };
    let position_us: i64 = match v.scaled_at("position", 1_000_000) {
        Some(n) => n,
        None => 0,
    };
    let duration_us: i64 = match v.number_at("duration") {
        Some(n) => read_length(n),
        None => 0,
    };
    PlayerState {
        playing,
        position_us,
        duration_us,
        uri: if begins_with(path.as_str(), TRACK_PREFIX) {
            path
        } else {
            String::new()
        },
        title: t.str_or("title", ""),
        artist: t.str_or("artist", ""),
        art_url: String::new(),
    }
}

/// What cliamp is doing, from what its program prints; nothing where that is not JSON.
pub fn cliamp_status(out: &str) -> (r: Option<PlayerState>)
    ensures
        option_view(r) == match parsed(out@) {
            Some(v) => Some(cliamp_view(v)),
            None => None,
        },
{
    match parse(out) {
        Some(v) => Some(cliamp_state(&v)),
        None => None,
    }
}

/// The arguments that make cliamp's program do something.
pub fn cliamp_args(op: &str, params: &str) -> (r: Vec<String>)
    ensures
        texts(r@) == seq!["remote"@, "call"@, op@, "--params"@, params@],
{
    let mut v: Vec<String> = Vec::new();
    push_path(&mut v, "remote");
    push_path(&mut v, "call");
    push_path(&mut v, op);
    push_path(&mut v, "--params");
    push_path(&mut v, params);
    assert(texts(v@) =~= seq!["remote"@, "call"@, op@, "--params"@, params@]);
    v
}

/// The arguments that ask cliamp's program what it is doing.
pub fn cliamp_status_args() -> (r: Vec<String>)
    ensures
        texts(r@) == seq!["status"@, "--json"@],
{
    let mut v: Vec<String> = Vec::new();
    push_path(&mut v, "status");
    push_path(&mut v, "--json");
    assert(texts(v@) =~= seq!["status"@, "--json"@]);
    v
}

/// What cliamp is asked to do, and with what.
#[derive(Debug)]
pub struct RemoteCall {
    pub op: String,
    pub params: Json,
}

/// What cliamp is asked to do, and with what.
pub struct RemoteCallView {
    pub op: Seq<char>,
    pub params: JsonView,
}

impl View for RemoteCall {
    type V = RemoteCallView;

    open spec fn view(&self) -> RemoteCallView {
        RemoteCallView { op: self.op@, params: self.params@ }
    }
}

/// A song for cliamp. One without title is called by its id.
pub open spec fn cliamp_song(uri: Seq<char>, title: Seq<char>, artist: Seq<char>) -> JsonView {
    let id = without_prefixes(uri, TRACK_PREFIX@);
    JsonView::Object(
        seq![
            (
                "track"@,
                JsonView::Object(
                    seq![
                        ("artist"@, JsonView::Str(artist)),
                        ("path"@, JsonView::Str(uri)),
                        (
                            "provider_meta"@,
                            JsonView::Object(
                                seq![
                                    ("kind"@, JsonView::Str("track"@)),
                                    ("trackID"@, JsonView::Str(id)),
                                ],
                            ),
                        ),
                        (
                            "title"@,
                            JsonView::Str(
                                if title.len() == 0 {
                                    id
                                } else {
                                    title
                                },
                            ),
                        ),
                    ],
                ),
            ),
        ],
    )
}

/// A song for cliamp.
fn song_params(uri: &str, title: &str, artist: &str) -> (r: Json)
    ensures
        r@ == cliamp_song(uri@, title@, artist@),
{
    proof {
        reveal_strlit("spotify:track:");
        assert(TRACK_PREFIX@.len() == 14);
    }
    let id = strip_prefixes(uri, TRACK_PREFIX);
    let mut meta: Vec<(String, Json)> = Vec::new();
    meta.push(("kind".to_owned(), string("track")));
    meta.push(("trackID".to_owned(), string(id.as_str())));
    let ghost song = cliamp_song(uri@, title@, artist@)->Object_0[0].1->Object_0;
    assert(entries(meta@) =~= song[2].1->Object_0);
    let mut t: Vec<(String, Json)> = Vec::new();
    t.push(("artist".to_owned(), string(artist)));
    t.push(("path".to_owned(), string(uri)));
    t.push(("provider_meta".to_owned(), object(meta)));
    let called = if is_empty(title) {
        string(id.as_str())
    } else {
        string(title)
    };
    t.push(("title".to_owned(), called));
    assert(entries(t@) =~= song);
    let mut f: Vec<(String, Json)> = Vec::new();
    f.push(("track".to_owned(), object(t)));
    assert(entries(f@) =~= cliamp_song(uri@, title@, artist@)->Object_0);
    object(f)
}

/// Nothing to say.
pub open spec fn no_params() -> JsonView {
    JsonView::Object(Seq::empty())
}

/// A value to say.
pub open spec fn value_params(n: nat) -> JsonView {
    JsonView::Object(seq![("value"@, JsonView::Number(Number::PosInt(n as u64)))])
}

/// Nothing to say.
fn empty_params() -> (r: Json)
    ensures
        r@ == no_params(),
{
    let f: Vec<(String, Json)> = Vec::new();
    assert(entries(f@) =~= Seq::empty());
    object(f)
}

/// What cliamp is asked when it is told something. An empty uri is never opened.
pub open spec fn cliamp_call_of(op: PlayerOpView) -> Option<RemoteCallView> {
    match op {
        PlayerOpView::Play => Some(
            RemoteCallView { op: "runtime.play"@, params: no_params() },
        ),
        PlayerOpView::Pause => Some(
            RemoteCallView { op: "runtime.pause"@, params: no_params() },
        ),
        PlayerOpView::Next => Some(
            RemoteCallView { op: "runtime.next"@, params: no_params() },
        ),
        PlayerOpView::Seek(us) => Some(
            RemoteCallView {
                op: "seek.absolute"@,
                params: value_params(whole_seconds(us as int)),
            },
        ),
        PlayerOpView::Open { uri, title, artist } => if uri.len() == 0 {
            None
        } else {
            Some(
                RemoteCallView { op: "track.play"@, params: cliamp_song(uri, title, artist) },
            )
        },
    }
}

/// What cliamp is asked when it is told something.
pub fn cliamp_call(op: &PlayerOp) -> (r: Option<RemoteCall>)
    ensures
        option_view(r) == cliamp_call_of(op@),
{
    match op {
        PlayerOp::Play => Some(
            RemoteCall { op: "runtime.play".to_owned(), params: empty_params() },
        ),
        PlayerOp::Pause => Some(
            RemoteCall { op: "runtime.pause".to_owned(), params: empty_params() },
        ),
        PlayerOp::Next => Some(
            RemoteCall { op: "runtime.next".to_owned(), params: empty_params() },
        ),
        PlayerOp::Seek(us) => {
            let n: u64 = seconds(*us);
            let mut f: Vec<(String, Json)> = Vec::new();
            f.push(("value".to_owned(), Json::Number(Number::PosInt(n))));
            assert(entries(f@) =~= value_params(n as nat)->Object_0);
            Some(RemoteCall { op: "seek.absolute".to_owned(), params: object(f) })
        },
        PlayerOp::Open { uri, title, artist } => if is_empty(uri.as_str()) {
            None
        } else {
            Some(
                RemoteCall {
                    op: "track.play".to_owned(),
                    params: song_params(uri.as_str(), title.as_str(), artist.as_str()),
                },
            )
        },
    }
}

/// What cliamp is asked to add a song to its queue.
pub fn cliamp_queue_call(uri: &str, title: &str, artist: &str) -> (r: RemoteCall)
    ensures
        r@ == (RemoteCallView {
            op: "track.queue"@,
            params: cliamp_song(uri@, title@, artist@),
        }),
{
    RemoteCall { op: "track.queue".to_owned(), params: song_params(uri, title, artist) }
}

// ---------------------------------------------------------------------------
// spotifast's command line
// ---------------------------------------------------------------------------
/// What is known of a song's uri.
#[derive(Debug)]
pub enum Resolution {
    /// The uri.
    Known(String),
    /// There is none, or it is being looked up.
    Unknown,
    /// It has to be looked up.
    LookUp,
}

/// What is known of a song's uri.
pub enum ResolutionView {
    Known(Seq<char>),
    Unknown,
    LookUp,
}

impl View for Resolution {
    type V = ResolutionView;

    open spec fn view(&self) -> ResolutionView {
        match self {
            Resolution::Known(u) => ResolutionView::Known(u@),
            Resolution::Unknown => ResolutionView::Unknown,
            Resolution::LookUp => ResolutionView::LookUp,
        }
    }
}

/// A song whose uri was looked up.
#[derive(Debug)]
struct Resolved {
    key: String,
    uri: Option<String>,
}

/// A song whose uri was looked up.
pub struct ResolvedView {
    pub key: Seq<char>,
    pub uri: Option<Seq<char>>,
}

impl View for Resolved {
    type V = ResolvedView;

    closed spec fn view(&self) -> ResolvedView {
        ResolvedView { key: self.key@, uri: option_view(self.uri) }
    }
}

/// The views of a list of songs whose uri was looked up.
spec fn resolved_views(s: Seq<Resolved>) -> Seq<ResolvedView> {
    Seq::new(s.len(), |i: int| s[i]@)
}

/// What came of the last look-up of a song, if there was one.
pub open spec fn looked_up_uri(s: Seq<ResolvedView>, key: Seq<char>) -> Option<Option<Seq<char>>>
    decreases s.len(),
{
    if s.len() == 0 {
        None
    } else if s.last().key == key {
        Some(s.last().uri)
    } else {
        looked_up_uri(s.drop_last(), key)
    }
}

/// spotifast, spoken to by its program, which does not tell the uri of a song.
#[derive(Debug)]
pub struct SpotifastWinPlayer {
    bin: Option<String>,
    resolved: Vec<Resolved>,
    resolving: Option<String>,
}

/// spotifast, spoken to by its program.
pub struct SpotifastView {
    /// The configured program, if there is one.
    pub bin: Option<Seq<char>>,
    /// What was looked up, in order.
    pub resolved: Seq<ResolvedView>,
    /// What is being looked up.
    pub resolving: Option<Seq<char>>,
}

impl View for SpotifastWinPlayer {
    type V = SpotifastView;

    closed spec fn view(&self) -> SpotifastView {
        SpotifastView {
            bin: option_view(self.bin),
            resolved: resolved_views(self.resolved@),
            resolving: option_view(self.resolving),
        }
    }
}

/// What tells one song from another.
pub open spec fn song_key(title: Seq<char>, artist: Seq<char>) -> Seq<char> {
    title + "|"@ + artist
}

impl SpotifastView {
    /// With the end of a look-up noted.
    pub open spec fn finished(self, result: Option<Seq<char>>) -> SpotifastView {
        match self.resolving {
            Some(key) => SpotifastView {
                resolved: self.resolved.push(ResolvedView { key, uri: result }),
                resolving: None,
                ..self
            },
            None => self,
        }
    }
}

impl SpotifastWinPlayer {
    /// spotifast by the configured program, if there is one.
    pub fn new(bin: Option<String>) -> (r: SpotifastWinPlayer)
        ensures
            r@.bin == option_view(bin),
            r@.resolved.len() == 0,
            r@.resolving is None,
    {
        SpotifastWinPlayer { bin, resolved: Vec::new(), resolving: None }
    }

    /// Notes the end of the look-up that is under way.
    pub fn finish(&mut self, result: Option<String>)
        ensures
            final(self)@ == old(self)@.finished(option_view(result)),
    {
        let mut key: Option<String> = None;
        std::mem::swap(&mut key, &mut self.resolving);
        if let Some(key) = key {
            let ghost before = resolved_views(self.resolved@);
            let e = Resolved { key, uri: result };
            let ghost ev = e@;
            self.resolved.push(e);
            assert(resolved_views(self.resolved@) =~= before.push(ev));
        }
    }

    /// What is known of a song's uri. A song that was never looked up and is not being looked
    /// up has to be; that look-up takes the place of one that is under way.
    pub fn resolve_uri(&mut self, title: &str, artist: &str) -> (r: Resolution)
        ensures
            ({
                let key = song_key(title@, artist@);
                match looked_up_uri(old(self)@.resolved, key) {
                    Some(Some(uri)) => r@ == ResolutionView::Known(uri) && final(self)@ == old(
                        self,
                    )@,
                    Some(None) => r@ == ResolutionView::Unknown && final(self)@ == old(self)@,
                    None => if old(self)@.resolving == Some(key) {
                        r@ == ResolutionView::Unknown && final(self)@ == old(self)@
                    } else {
                        r@ == ResolutionView::LookUp && final(self)@ == (SpotifastView {
                            resolving: Some(key),
                            ..old(self)@
                        })
                    },
                }
            }),
    {
        let mut key = title.to_owned();
        key.append("|");
        key.append(artist);
        let ghost v = resolved_views(self.resolved@);
        let n: usize = self.resolved.len();
        let mut i: usize = n;
        assert(v.take(n as int) =~= v);
        while i > 0
            invariant
                n == self.resolved@.len(),
                i <= n,
                v == resolved_views(self.resolved@),
                key@ == song_key(title@, artist@),
                looked_up_uri(v, key@) == looked_up_uri(v.take(i as int), key@),
                self@ == old(self)@,
                v == self@.resolved,
            decreases i,
        {
            let e = &self.resolved[i - 1];
            proof {
                assert(v.take(i as int).last() == v[i - 1]);
                assert(v.take(i as int).drop_last() =~= v.take(i - 1));
            }
            if same(e.key.as_str(), key.as_str()) {
                return match &e.uri {
                    Some(u) => Resolution::Known(u.clone()),
                    None => Resolution::Unknown,
                };
            }
            i = i - 1;
        }
        let under_way = match &self.resolving {
            Some(k) => same(k.as_str(), key.as_str()),
            None => false,
        };
        if under_way {
            Resolution::Unknown
        } else {
            self.resolving = Some(key);
            Resolution::LookUp
        }
    }

    /// What is known of the current song's uri; a song without title is not looked up.
    pub fn uri_of(&mut self, now: &NowPlaying) -> (r: Resolution)
        ensures
            now@.title.len() == 0 ==> r@ == ResolutionView::Unknown && final(self)@ == old(self)@,
            now@.title.len() > 0 ==> {
                let key = song_key(now@.title, now@.artist);
                match looked_up_uri(old(self)@.resolved, key) {
                    Some(Some(uri)) => r@ == ResolutionView::Known(uri) && final(self)@ == old(
                        self,
                    )@,
                    Some(None) => r@ == ResolutionView::Unknown && final(self)@ == old(self)@,
                    None => if old(self)@.resolving == Some(key) {
                        r@ == ResolutionView::Unknown && final(self)@ == old(self)@
                    } else {
                        r@ == ResolutionView::LookUp && final(self)@ == (SpotifastView {
                            resolving: Some(key),
                            ..old(self)@
                        })
                    },
                }
            },
    {
        if is_empty(now.title.as_str()) {
            Resolution::Unknown
        } else {
            self.resolve_uri(now.title.as_str(), now.artist.as_str())
        }
    }

    /// The programs to try, in order: the configured one, the running one, those on the path, and
    /// those in the usual places.
    pub fn candidate_paths(&self, places: &Places) -> (r: Vec<String>)
        ensures
            texts(r@) == first_tries(self@.bin, places@.running, "spotifast"@) + seq![
                "spotifast"@,
                "fastpotify"@,
                "spotifast-cli"@,
            ] + under(places@.local_app_data, "\\Programs\\spotifast\\spotifast.exe"@) + under(
                places@.program_files,
                "\\Spotifast\\spotifast.exe"@,
            ) + under(places@.user_profile, "\\go\\bin\\spotifast.exe"@) + under(
                places@.user_profile,
                "\\scoop\\shims\\spotifast.exe"@,
            ),
    {
        let mut v = begin_tries(&self.bin, &places.running, "spotifast");
        let ghost first = texts(v@);
        push_path(&mut v, "spotifast");
        push_path(&mut v, "fastpotify");
        push_path(&mut v, "spotifast-cli");
        assert(texts(v@) =~= first + seq!["spotifast"@, "fastpotify"@, "spotifast-cli"@]);
        push_under(
            &mut v,
            as_option(&places.local_app_data),
            "\\Programs\\spotifast\\spotifast.exe",
        );
        push_under(&mut v, as_option(&places.program_files), "\\Spotifast\\spotifast.exe");
        push_under(&mut v, as_option(&places.user_profile), "\\go\\bin\\spotifast.exe");
        push_under(&mut v, as_option(&places.user_profile), "\\scoop\\shims\\spotifast.exe");
        v
    }
}

/// What spotifast's program says of the current song.
#[derive(Debug)]
pub struct NowPlaying {
    pub playing: bool,
    pub title: String,
    pub artist: String,
    /// The position in milliseconds, as a decimal text.
    pub position: String,
    /// The duration in milliseconds, as a decimal text.
    pub duration: String,
    pub art_url: String,
}

/// What spotifast's program says of the current song.
pub struct NowPlayingView {
    pub playing: bool,
    pub title: Seq<char>,
    pub artist: Seq<char>,
    pub position: Seq<char>,
    pub duration: Seq<char>,
    pub art_url: Seq<char>,
}

impl View for NowPlaying {
    type V = NowPlayingView;

    open spec fn view(&self) -> NowPlayingView {
        NowPlayingView {
            playing: self.playing,
            title: self.title@,
            artist: self.artist@,
            position: self.position@,
            duration: self.duration@,
            art_url: self.art_url@,
        }
    }
}

/// What spotifast's program says of the current song: the first line has at least ten fields
/// with tabs between them.
pub open spec fn now_playing_of(out: Seq<char>) -> Option<NowPlayingView> {
    match first_line_of(out) {
        Some(line) => {
            let f = parts(line, '\t');
            if f.len() < 10 {
                None
            } else {
                Some(
                    NowPlayingView {
                        playing: alike(f[0], "playing"@),
                        title: f[1],
                        artist: f[2],
                        position: f[4],
                        duration: f[5],
                        art_url: f[9],
                    },
                )
            }
        },
        None => None,
    }
}

/// What spotifast's program says of the current song.
pub fn now_playing(out: &str) -> (r: Option<NowPlaying>)
    ensures
        option_view(r) == now_playing_of(out@),
{
    let line = match first_line(out) {
        Some(line) => line,
        None => return None,
    };
    let f = split(line.as_str(), '\t');
    if f.len() < 10 {
        return None;
    }
    assert(forall|i: int| 0 <= i < f@.len() ==> texts(f@)[i] == f@[i]@);
    Some(
        NowPlaying {
            playing: same_ignoring_case(f[0].as_str(), "playing"),
            title: f[1].clone(),
            artist: f[2].clone(),
            position: f[4].clone(),
            duration: f[5].clone(),
            art_url: f[9].clone(),
        },
    )
}

/// What spotifast is doing, with the bits of the position and the duration in milliseconds, and
/// with the uri as far as it is known.
pub fn spotifast_state(now: NowPlaying, position: u64, duration: u64, uri: String) -> (r:
    PlayerState)
    ensures
        r@ == (PlayerStateView {
            playing: now@.playing,
            position_us: crate::binary64::scaled(position, 1000) as i64,
            duration_us: crate::binary64::scaled(duration, 1000) as i64,
            uri: uri@,
            title: now@.title,
            artist: now@.artist,
            art_url: now@.art_url,
        }),
{
    PlayerState {
        playing: now.playing,
        position_us: crate::binary64::scale_to_int(position, 1000),
        duration_us: crate::binary64::scale_to_int(duration, 1000),
        uri,
        title: now.title,
        artist: now.artist,
        art_url: now.art_url,
    }
}

/// The arguments that tell spotifast's program something. An empty uri is never opened.
pub open spec fn spotifast_args_of(op: PlayerOpView) -> Seq<Seq<char>> {
    match op {
        PlayerOpView::Play => seq!["play"@],
        PlayerOpView::Pause => seq!["pause"@],
        PlayerOpView::Next => seq!["next"@],
        PlayerOpView::Seek(us) => seq!["seek-to"@, dec(whole_seconds(us as int))],
        PlayerOpView::Open { uri, .. } => if uri.len() == 0 {
            Seq::empty()
        } else {
            seq!["play-uri"@, uri]
        },
    }
}

/// The arguments that tell spotifast's program something; none where there is nothing to tell.
pub fn spotifast_args(op: &PlayerOp) -> (r: Vec<String>)
    ensures
        texts(r@) == spotifast_args_of(op@),
{
    let mut v: Vec<String> = Vec::new();
    match op {
        PlayerOp::Play => push_path(&mut v, "play"),
        PlayerOp::Pause => push_path(&mut v, "pause"),
        PlayerOp::Next => push_path(&mut v, "next"),
        PlayerOp::Seek(us) => {
            push_path(&mut v, "seek-to");
            push_path(&mut v, decimal(seconds(*us)).as_str());
        },
        PlayerOp::Open { uri, .. } => {
            if !is_empty(uri.as_str()) {
                push_path(&mut v, "play-uri");
                push_path(&mut v, uri.as_str());
            }
        },
    }
    assert(texts(v@) =~= spotifast_args_of(op@));
    v
}

/// The arguments that ask spotifast's program what it is doing.
pub fn spotifast_status_args() -> (r: Vec<String>)
    ensures
        texts(r@) == seq!["now-playing"@, "--raw"@],
{
    let mut v: Vec<String> = Vec::new();
    push_path(&mut v, "now-playing");
    push_path(&mut v, "--raw");
    assert(texts(v@) =~= seq!["now-playing"@, "--raw"@]);
    v
}

// ---------------------------------------------------------------------------
// running programs and stored grants
// ---------------------------------------------------------------------------
/// The name of a program without its ending, in lower case.
pub open spec fn program_base(name: Seq<char>) -> Seq<char> {
    without_suffixes(lowered(name), ".exe"@)
}

/// Whether a running program has one of the given names, the case and the ending aside.
pub fn is_program(names: &Vec<String>, running: &str) -> (r: bool)
    ensures
        r == exists|i: int|
            0 <= i < names@.len() && program_base(#[trigger] texts(names@)[i]) == program_base(
                running@,
            ),
{
    proof {
        reveal_strlit(".exe");
        assert(".exe"@.len() == 4);
    }
    let base = strip_suffixes(lowercase(running).as_str(), ".exe");
    let n: usize = names.len();
    let mut i: usize = 0;
    while i < n
        invariant
            n == names@.len(),
            i <= n,
            ".exe"@.len() > 0,
            base@ == program_base(running@),
            forall|k: int|
                0 <= k < i ==> program_base(#[trigger] texts(names@)[k]) != program_base(running@),
        decreases n - i,
    {
        let b = strip_suffixes(lowercase(names[i].as_str()).as_str(), ".exe");
        assert(texts(names@)[i as int] == names@[i as int]@);
        if same(b.as_str(), base.as_str()) {
            return true;
        }
        i = i + 1;
    }
    false
}

/// A stored credential: its name, its content, if any, and when it was written.
#[derive(Debug)]
pub struct Stored {
    pub target: String,
    pub filled: bool,
    pub written: i64,
}

/// Whether a stored credential is spotifast's grant for the web, and has content.
pub open spec fn is_grant(target: Seq<char>, filled: bool) -> bool {
    filled && (ends(target, ":shared-web.rocks.fastpotify.Fastpotify"@) || ends(
        target,
        ":shared-web.rocks.spotifast.Spotifast"@,
    ))
}

/// The place of the grant that was written last, the first of them where several were.
pub fn pick_grant(stored: &Vec<Stored>) -> (r: Option<usize>)
    ensures
        match r {
            Some(b) => {
                &&& b < stored@.len()
                &&& is_grant(stored@[b as int].target@, stored@[b as int].filled)
                &&& forall|k: int|
                    0 <= k < stored@.len() && is_grant(
                        (#[trigger] stored@[k]).target@,
                        stored@[k].filled,
                    ) ==> stored@[k].written <= stored@[b as int].written && (k < b
                        ==> stored@[k].written < stored@[b as int].written)
            },
            None => forall|k: int|
                0 <= k < stored@.len() ==> !is_grant(
                    (#[trigger] stored@[k]).target@,
                    stored@[k].filled,
                ),
        },
{
    let n: usize = stored.len();
    let mut best: Option<usize> = None;
    let mut i: usize = 0;
    while i < n
        invariant
            n == stored@.len(),
            i <= n,
            match best {
                Some(b) => {
                    &&& b < i
                    &&& is_grant(stored@[b as int].target@, stored@[b as int].filled)
                    &&& forall|k: int|
                        0 <= k < i && is_grant(
                            (#[trigger] stored@[k]).target@,
                            stored@[k].filled,
                        ) ==> stored@[k].written <= stored@[b as int].written && (k < b
                            ==> stored@[k].written < stored@[b as int].written)
                },
                None => forall|k: int|
                    0 <= k < i ==> !is_grant((#[trigger] stored@[k]).target@, stored@[k].filled),
            },
        decreases n - i,
    {
        let s = &stored[i];
        if s.filled && (ends_with(s.target.as_str(), ":shared-web.rocks.fastpotify.Fastpotify")
            || ends_with(s.target.as_str(), ":shared-web.rocks.spotifast.Spotifast")) {
            let newer = match best {
                Some(b) => s.written > stored[b].written,
                None => true,
            };
            if newer {
                best = Some(i);
            }
        }
        i = i + 1;
    }
    best
}

/// How to come by a token for the web.
#[derive(Debug)]
pub enum TokenStep {
    /// The stored one is still good.
    Use(String),
    /// A new one has to be asked for.
    Refresh { client_id: String, refresh_token: String },
}

/// How to come by a token for the web.
pub enum TokenStepView {
    Use(Seq<char>),
    Refresh { client_id: Seq<char>, refresh_token: Seq<char> },
}

impl View for TokenStep {
    type V = TokenStepView;

    open spec fn view(&self) -> TokenStepView {
        match self {
            TokenStep::Use(t) => TokenStepView::Use(t@),
            TokenStep::Refresh { client_id, refresh_token } => TokenStepView::Refresh {
                client_id: client_id@,
                refresh_token: refresh_token@,
            },
        }
    }
}

/// The value under two keys, one inside the other.
pub open spec fn nested(v: JsonView, a: Seq<char>, b: Seq<char>) -> Option<JsonView> {
    match v.get(a) {
        Some(w) => w.get(b),
        None => None,
    }
}

/// The value under two keys, one inside the other.
pub fn get_nested<'a>(v: &'a Json, a: &str, b: &str) -> (r: Option<&'a Json>)
    ensures
        match r {
            Some(w) => nested(v@, a@, b@) == Some(w@),
            None => nested(v@, a@, b@) is None,
        },
{
    match v.get(a) {
        Some(w) => w.get(b),
        None => None,
    }
}

/// How to come by a token, given a stored grant and the time in seconds: the grant names a
/// client and a refresh token, and its own token is good until a minute before it expires.
pub open spec fn token_step_of(v: JsonView, now: i64) -> Option<TokenStepView> {
    match nested(v, "grant"@, "Web"@) {
        Some(web) => match (web.text_at("client_id"@), web.text_at("refresh_token"@)) {
            (Some(client_id), Some(refresh_token)) => {
                let expires = match web.int_at("expires_at"@) {
                    Some(n) => n,
                    None => 0,
                };
                if expires - 60 > now {
                    match web.text_at("access_token"@) {
                        Some(t) => Some(TokenStepView::Use(t)),
                        None => None,
                    }
                } else {
                    Some(TokenStepView::Refresh { client_id, refresh_token })
                }
            },
            _ => None,
        },
        None => None,
    }
}

/// How to come by a token, given a stored grant and the time in seconds.
pub fn token_step(v: &Json, now: i64) -> (r: Option<TokenStep>)
    ensures
        option_view(r) == token_step_of(v@, now),
{
    let web = match get_nested(v, "grant", "Web") {
        Some(web) => web,
        None => return None,
    };
    let client_id = match web.str_at("client_id") {
        Some(s) => s.to_owned(),
        None => return None,
    };
    let refresh_token = match web.str_at("refresh_token") {
        Some(s) => s.to_owned(),
        None => return None,
    };
    let expires: i64 = match web.int_at("expires_at") {
        Some(n) => n,
        None => 0,
    };
    if expires as i128 - 60 > now as i128 {
        match web.str_at("access_token") {
            Some(t) => Some(TokenStep::Use(t.to_owned())),
            None => None,
        }
    } else {
        Some(TokenStep::Refresh { client_id, refresh_token })
    }
}

/// How to come by a token, given a stored grant as text and the time in seconds.
pub fn grant_step(grant: &str, now: i64) -> (r: Option<TokenStep>)
    ensures
        option_view(r) == match parsed(grant@) {
            Some(v) => token_step_of(v, now),
            None => None,
        },
{
    match parse(grant) {
        Some(v) => token_step(&v, now),
        None => None,
    }
}

/// The token in the reply to a request for a new one.
pub fn granted_token(doc: &Json) -> (r: Option<String>)
    ensures
        option_view(r) == doc@.text_at("access_token"@),
{
    match doc.str_at("access_token") {
        Some(t) => Some(t.to_owned()),
        None => None,
    }
}

/// The uri and the title of the song that the web says is playing, where it is one of the
/// catalogue.
pub open spec fn web_song_of(v: JsonView) -> Option<(Seq<char>, Seq<char>)> {
    match nested(v, "item"@, "uri"@) {
        Some(u) => match u.text() {
            Some(uri) => if begins(uri, TRACK_PREFIX@) {
                Some(
                    (
                        uri,
                        match nested(v, "item"@, "name"@) {
                            Some(n) => match n.text() {
                                Some(s) => s,
                                None => Seq::empty(),
                            },
                            None => Seq::empty(),
                        },
                    ),
                )
            } else {
                None
            },
            None => None,
        },
        None => None,
    }
}

/// The uri and the title of the song that the web says is playing.
pub fn web_song(v: &Json) -> (r: Option<(String, String)>)
    ensures
        match r {
            Some((uri, title)) => web_song_of(v@) == Some((uri@, title@)),
            None => web_song_of(v@) is None,
        },
{
    let uri = match get_nested(v, "item", "uri") {
        Some(u) => match u.as_str() {
            Some(s) => s.to_owned(),
            None => return None,
        },
        None => return None,
    };
    if !begins_with(uri.as_str(), TRACK_PREFIX) {
        return None;
    }
    let title = match get_nested(v, "item", "name") {
        Some(n) => match n.as_str() {
            Some(s) => s.to_owned(),
            None => String::new(),
        },
        None => String::new(),
    };
    Some((uri, title))
}

/// Whether two titles are those of one song: the same, or one within the other, in lower case.
pub open spec fn same_song(a: Seq<char>, b: Seq<char>) -> bool {
    lowered(a) == lowered(b) || occurs(lowered(a), lowered(b)) || occurs(lowered(b), lowered(a))
}

/// Whether two titles are those of one song.
pub fn is_same_song(a: &str, b: &str) -> (r: bool)
    ensures
        r == same_song(a@, b@),
{
    let x = lowercase(a);
    let y = lowercase(b);
    same(x.as_str(), y.as_str()) || contains(x.as_str(), y.as_str()) || contains(
        y.as_str(),
        x.as_str(),
    )
}

} // verus!
