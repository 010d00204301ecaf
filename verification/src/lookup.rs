//! Finding a song's uri from its title, artist and duration, in public music databases.
use crate::backends::{get_nested, nested, TRACK_PREFIX};
use crate::json::{group_json_views, items, Json, JsonView};
use crate::position::{apart, distance};
use crate::text::{
    after_prefix, begins, byte_len, contains, ends, hex_digit_upper, is_empty, law_suffix_is_gone,
    lowercase, lowered, occurs, option_view, parts, same, split, strip_suffixes, texts, trim,
    trimmed, without_suffixes,
};
use vstd::prelude::*;
use vstd::utf8::*;

verus! {

/// How many recordings are looked at.
pub const RECORDINGS: usize = 3;

/// Milliseconds of rest before a question to MusicBrainz.
pub const REST_MS: u64 = 1100;

/// A byte that stands for itself in a query.
pub open spec fn unreserved(b: u8) -> bool {
    65 <= b <= 90 || 97 <= b <= 122 || 48 <= b <= 57 || b == 45 || b == 95 || b == 46 || b == 126
}

/// A byte in a query: itself, or a percent sign and two upper-case hexadecimal digits.
pub open spec fn query_byte(b: u8) -> Seq<char> {
    if unreserved(b) {
        seq![b as char]
    } else {
        seq!['%', hex_digit_upper((b / 16) as nat), hex_digit_upper((b % 16) as nat)]
    }
}

/// Bytes in a query.
pub open spec fn query_bytes(b: Seq<u8>) -> Seq<char>
    decreases b.len(),
{
    if b.len() == 0 {
        Seq::empty()
    } else {
        query_bytes(b.drop_last()) + query_byte(b.last())
    }
}

/// The character of an upper-case hexadecimal digit.
fn upper_digit(n: u8) -> (c: char)
    requires
        n < 16,
    ensures
        c == hex_digit_upper(n as nat),
{
    if n < 10 {
        (48u8 + n) as char
    } else {
        (55u8 + n) as char
    }
}

/// A text in a query.
pub fn urlencode(s: &str) -> (r: String)
    ensures
        r@ == query_bytes(encode_utf8(s@)),
{
    let b = s.as_bytes();
    let n: usize = b.len();
    let mut r = String::new();
    let mut i: usize = 0;
    assert(b@.take(0) =~= Seq::empty());
    while i < n
        invariant
            n == b@.len(),
            i <= n,
            r@ == query_bytes(b@.take(i as int)),
        decreases n - i,
    {
        let c: u8 = b[i];
        proof {
            assert(b@.take(i as int + 1).drop_last() =~= b@.take(i as int));
            assert(b@.take(i as int + 1).last() == c);
        }
        let ghost before = r@;
        if (65 <= c && c <= 90) || (97 <= c && c <= 122) || (48 <= c && c <= 57) || c == 45 || c
            == 95 || c == 46 || c == 126 {
            r.push(c as char);
        } else {
            r.push('%');
            r.push(upper_digit(c / 16));
            r.push(upper_digit(c % 16));
        }
        assert(r@ =~= before + query_byte(c));
        i = i + 1;
    }
    assert(b@.take(n as int) =~= b@);
    r
}

/// The address of a search for a title and an artist.
pub open spec fn search_url(title: Seq<char>, artist: Seq<char>) -> Seq<char> {
    "https://api.deezer.com/search?q="@ + query_bytes(encode_utf8(title + " "@ + artist))
}

/// The address of a search for a title and an artist.
fn search_address(title: &str, artist: &str) -> (r: String)
    ensures
        r@ == search_url(title@, artist@),
{
    let mut q = title.to_owned();
    q.append(" ");
    q.append(artist);
    let mut u = "https://api.deezer.com/search?q=".to_owned();
    u.append(urlencode(q.as_str()).as_str());
    u
}

/// The address of the recordings with an ISRC.
pub open spec fn isrc_url(isrc: Seq<char>) -> Seq<char> {
    "https://musicbrainz.org/ws/2/isrc/"@ + isrc + "?fmt=json"@
}

/// The address of a recording and its links.
pub open spec fn recording_url(id: Seq<char>) -> Seq<char> {
    "https://musicbrainz.org/ws/2/recording/"@ + id + "?inc=url-rels&fmt=json"@
}

/// Whether one of two texts occurs in the other.
pub open spec fn overlap(a: Seq<char>, b: Seq<char>) -> bool {
    occurs(a, b) || occurs(b, a)
}

/// Whether the artists of a result, with commas between them, fit an artist: none is asked for,
/// or one of them overlaps with it, in lower case.
pub open spec fn artist_fits(found: Seq<char>, artist: Seq<char>) -> bool {
    artist.len() == 0 || exists|i: int|
        0 <= i < parts(lowered(found), ',').len() && {
            let p = trimmed(#[trigger] parts(lowered(found), ',')[i]);
            p.len() > 0 && overlap(lowered(artist), p)
        }
}

/// Whether the artists of a result fit an artist.
fn is_artist(found: &str, artist: &str) -> (r: bool)
    ensures
        r == artist_fits(found@, artist@),
{
    if is_empty(artist) {
        return true;
    }
    let wanted = lowercase(artist);
    let v = split(lowercase(found).as_str(), ',');
    let n: usize = v.len();
    let mut i: usize = 0;
    while i < n
        invariant
            n == v@.len(),
            i <= n,
            texts(v@) == parts(lowered(found@), ','),
            wanted@ == lowered(artist@),
            forall|k: int|
                0 <= k < i ==> {
                    let p = trimmed(#[trigger] parts(lowered(found@), ',')[k]);
                    !(p.len() > 0 && overlap(lowered(artist@), p))
                },
        decreases n - i,
    {
        assert(texts(v@)[i as int] == v@[i as int]@);
        let p = trim(v[i].as_str());
        if !is_empty(p.as_str()) && (contains(wanted.as_str(), p.as_str()) || contains(
            p.as_str(),
            wanted.as_str(),
        )) {
            assert(overlap(lowered(artist@), trimmed(parts(lowered(found@), ',')[i as int])));
            return true;
        }
        i = i + 1;
    }
    false
}

/// Whether two durations are within five seconds of each other, or one is not known.
pub open spec fn duration_fits(found_us: int, duration_us: int) -> bool {
    duration_us <= 0 || found_us <= 0 || apart(found_us, duration_us) < 5_000_000
}

/// The duration of a result in microseconds; a missing one is nothing.
pub open spec fn found_duration(t: JsonView) -> i64 {
    match t.scaled_at("duration"@, 1_000_000) {
        Some(n) => n as i64,
        None => 0,
    }
}

/// The artists of a result.
pub open spec fn found_artist(t: JsonView) -> Seq<char> {
    match nested(t, "artist"@, "name"@) {
        Some(a) => match a.text() {
            Some(s) => s,
            None => Seq::empty(),
        },
        None => Seq::empty(),
    }
}

/// Whether a result is the song.
pub open spec fn fits(t: JsonView, artist: Seq<char>, duration_us: i64) -> bool {
    artist_fits(found_artist(t), artist) && duration_fits(
        found_duration(t) as int,
        duration_us as int,
    )
}

/// Whether a result is the song.
fn is_fit(t: &Json, artist: &str, duration_us: i64) -> (r: bool)
    ensures
        r == fits(t@, artist@, duration_us),
{
    let found: i64 = match t.scaled_at("duration", 1_000_000) {
        Some(n) => n,
        None => 0,
    };
    let name = match get_nested(t, "artist", "name") {
        Some(a) => match a.as_str() {
            Some(s) => s.to_owned(),
            None => String::new(),
        },
        None => String::new(),
    };
    is_artist(name.as_str(), artist) && (duration_us <= 0 || found <= 0 || distance(
        found,
        duration_us,
    ) < 5_000_000)
}

/// The ISRC of the first result that is the song.
pub open spec fn first_isrc(a: Seq<JsonView>, artist: Seq<char>, duration_us: i64) -> Option<
    Seq<char>,
>
    decreases a.len(),
{
    if a.len() == 0 {
        None
    } else if fits(a[0], artist, duration_us) {
        a[0].text_at("isrc"@)
    } else {
        first_isrc(a.drop_first(), artist, duration_us)
    }
}

/// The ISRC of the first result that is the song.
fn find_isrc(a: &Vec<Json>, artist: &str, duration_us: i64) -> (r: Option<String>)
    ensures
        option_view(r) == first_isrc(items(a@), artist@, duration_us),
{
    let ghost v = items(a@);
    let n: usize = a.len();
    let mut i: usize = 0;
    assert(v.skip(0) =~= v);
    while i < n
        invariant
            n == a@.len(),
            i <= n,
            v == items(a@),
            first_isrc(v, artist@, duration_us) == first_isrc(
                v.skip(i as int),
                artist@,
                duration_us,
            ),
        decreases n - i,
    {
        assert(v.skip(i as int)[0] == a@[i as int]@);
        if is_fit(&a[i], artist, duration_us) {
            return match a[i].str_at("isrc") {
                Some(s) => Some(s.to_owned()),
                None => None,
            };
        }
        assert(v.skip(i as int).drop_first() =~= v.skip(i as int + 1));
        i = i + 1;
    }
    None
}

/// The ids of recordings; values without one are left out.
pub open spec fn ids_of(a: Seq<JsonView>) -> Seq<Seq<char>>
    decreases a.len(),
{
    if a.len() == 0 {
        Seq::empty()
    } else {
        match a.last().text_at("id"@) {
            Some(s) => ids_of(a.drop_last()).push(s),
            None => ids_of(a.drop_last()),
        }
    }
}

/// The ids of recordings.
fn read_ids(a: &Vec<Json>) -> (r: Vec<String>)
    ensures
        texts(r@) == ids_of(items(a@)),
{
    let ghost v = items(a@);
    let n: usize = a.len();
    let mut r: Vec<String> = Vec::new();
    let mut i: usize = 0;
    assert(v.take(0) =~= Seq::empty());
    assert(texts(r@) =~= ids_of(v.take(0)));
    while i < n
        invariant
            n == a@.len(),
            i <= n,
            v == items(a@),
            texts(r@) == ids_of(v.take(i as int)),
        decreases n - i,
    {
        proof {
            assert(v.take(i as int + 1).drop_last() =~= v.take(i as int));
            assert(v.take(i as int + 1).last() == a@[i as int]@);
        }
        let ghost before = texts(r@);
        if let Some(s) = a[i].str_at("id") {
            r.push(s.to_owned());
            assert(texts(r@) =~= before.push(s@));
        }
        i = i + 1;
    }
    assert(v.take(n as int) =~= v);
    r
}

/// The uri that a link of a recording leads to: one for streaming, to a song of the catalogue.
pub open spec fn link_uri(rel: JsonView) -> Option<Seq<char>> {
    let kind = rel.text_at("type"@);
    if kind != Some("free streaming"@) && kind != Some("streaming"@) {
        None
    } else {
        match nested(rel, "url"@, "resource"@) {
            Some(r) => match r.text() {
                Some(s) => if begins(s, "https://open.spotify.com/track/"@) {
                    let id = without_suffixes(
                        s.skip("https://open.spotify.com/track/"@.len() as int),
                        "/"@,
                    );
                    if encode_utf8(id).len() == 22 {
                        Some(TRACK_PREFIX@ + id)
                    } else {
                        None
                    }
                } else {
                    None
                },
                None => None,
            },
            None => None,
        }
    }
}

/// The uri that a link of a recording leads to.
fn read_link(rel: &Json) -> (r: Option<String>)
    ensures
        option_view(r) == link_uri(rel@),
{
    proof {
        reveal_strlit("/");
        assert("/"@.len() == 1);
    }
    let streaming = match rel.str_at("type") {
        Some(t) => same(t, "free streaming") || same(t, "streaming"),
        None => false,
    };
    if !streaming {
        return None;
    }
    let s = match get_nested(rel, "url", "resource") {
        Some(r) => match r.as_str() {
            Some(s) => s,
            None => return None,
        },
        None => return None,
    };
    match after_prefix(s, "https://open.spotify.com/track/") {
        Some(rest) => {
            let id = strip_suffixes(rest.as_str(), "/");
            if byte_len(id.as_str()) == 22 {
                let mut u = TRACK_PREFIX.to_owned();
                u.append(id.as_str());
                Some(u)
            } else {
                None
            }
        },
        None => None,
    }
}

/// The uri that the first usable link leads to.
pub open spec fn first_link(a: Seq<JsonView>) -> Option<Seq<char>>
    decreases a.len(),
{
    if a.len() == 0 {
        None
    } else if link_uri(a[0]) is Some {
        link_uri(a[0])
    } else {
        first_link(a.drop_first())
    }
}

/// The uri that a recording leads to.
pub open spec fn recording_uri(v: JsonView) -> Option<Seq<char>> {
    match v.array_at("relations"@) {
        Some(a) => first_link(a),
        None => None,
    }
}

/// The uri that a recording leads to.
fn read_recording(v: &Json) -> (r: Option<String>)
    ensures
        option_view(r) == recording_uri(v@),
{
    proof {
        broadcast use group_json_views;

    }
    let a = match v.array_at("relations") {
        Some(a) => a,
        None => return None,
    };
    let ghost s = items(a@);
    let n: usize = a.len();
    let mut i: usize = 0;
    assert(s.skip(0) =~= s);
    while i < n
        invariant
            n == a@.len(),
            i <= n,
            s == items(a@),
            recording_uri(v@) == first_link(s.skip(i as int)),
        decreases n - i,
    {
        assert(s.skip(i as int)[0] == a@[i as int]@);
        if let Some(u) = read_link(&a[i]) {
            return Some(u);
        }
        assert(s.skip(i as int).drop_first() =~= s.skip(i as int + 1));
        i = i + 1;
    }
    None
}

/// How far a search has come.
#[derive(Debug)]
enum Stage {
    /// The song is searched by title and artist.
    Search,
    /// The recordings with an ISRC are asked for.
    Isrc(String),
    /// Recordings are asked for, one after another.
    Recordings(Vec<String>),
    Done(Option<String>),
}

/// How far a search has come.
pub enum StageView {
    Search,
    Isrc(Seq<char>),
    Recordings(Seq<Seq<char>>),
    Done(Option<Seq<char>>),
}

impl View for Stage {
    type V = StageView;

    closed spec fn view(&self) -> StageView {
        match self {
            Stage::Search => StageView::Search,
            Stage::Isrc(i) => StageView::Isrc(i@),
            Stage::Recordings(ids) => StageView::Recordings(texts(ids@)),
            Stage::Done(r) => StageView::Done(option_view(*r)),
        }
    }
}

/// A search for a song's uri.
#[derive(Debug)]
pub struct UriLookup {
    title: String,
    artist: String,
    duration_us: i64,
    stage: Stage,
}

/// A search for a song's uri.
pub struct LookupView {
    pub title: Seq<char>,
    pub artist: Seq<char>,
    pub duration_us: i64,
    pub stage: StageView,
}

impl View for UriLookup {
    type V = LookupView;

    closed spec fn view(&self) -> LookupView {
        LookupView {
            title: self.title@,
            artist: self.artist@,
            duration_us: self.duration_us,
            stage: self.stage@,
        }
    }
}

/// What a search has to do next.
#[derive(Debug)]
pub enum LookupStep {
    /// Rest for some milliseconds, and fetch the JSON document at an address; `named` tells
    /// that the client gives its name.
    Fetch { url: String, rest_ms: u64, named: bool },
    /// The search is over.
    Done(Option<String>),
}

/// What a search has to do next.
pub enum LookupStepView {
    Fetch { url: Seq<char>, rest_ms: u64, named: bool },
    Done(Option<Seq<char>>),
}

impl View for LookupStep {
    type V = LookupStepView;

    open spec fn view(&self) -> LookupStepView {
        match self {
            LookupStep::Fetch { url, rest_ms, named } => LookupStepView::Fetch {
                url: url@,
                rest_ms: *rest_ms,
                named: *named,
            },
            LookupStep::Done(r) => LookupStepView::Done(option_view(*r)),
        }
    }
}

/// The stage that asks for some recordings, none of which is the end.
pub open spec fn recordings_stage(ids: Seq<Seq<char>>) -> StageView {
    if ids.len() == 0 {
        StageView::Done(None)
    } else {
        StageView::Recordings(ids)
    }
}

impl LookupView {
    /// What the search has to do next.
    pub open spec fn step(self) -> LookupStepView {
        match self.stage {
            StageView::Search => LookupStepView::Fetch {
                url: search_url(self.title, self.artist),
                rest_ms: 0,
                named: false,
            },
            StageView::Isrc(i) => LookupStepView::Fetch {
                url: isrc_url(i),
                rest_ms: REST_MS,
                named: true,
            },
            StageView::Recordings(ids) => if ids.len() == 0 {
                LookupStepView::Done(None)
            } else {
                LookupStepView::Fetch { url: recording_url(ids[0]), rest_ms: REST_MS, named: true }
            },
            StageView::Done(r) => LookupStepView::Done(r),
        }
    }

    /// The stage after a document, or after it could not be had. A recording that could not be
    /// had is passed over; anything else that could not ends the search.
    pub open spec fn after(self, doc: Option<JsonView>) -> StageView {
        match self.stage {
            StageView::Search => match doc {
                Some(v) => match v.array_at("data"@) {
                    Some(a) => match first_isrc(a, self.artist, self.duration_us) {
                        Some(isrc) => StageView::Isrc(isrc),
                        None => StageView::Done(None),
                    },
                    None => StageView::Done(None),
                },
                None => StageView::Done(None),
            },
            StageView::Isrc(_) => match doc {
                Some(v) => match v.array_at("recordings"@) {
                    Some(a) => {
                        let ids = ids_of(a);
                        recordings_stage(
                            if ids.len() > RECORDINGS {
                                ids.take(RECORDINGS as int)
                            } else {
                                ids
                            },
                        )
                    },
                    None => StageView::Done(None),
                },
                None => StageView::Done(None),
            },
            StageView::Recordings(ids) => {
                let found = match doc {
                    Some(v) => recording_uri(v),
                    None => None,
                };
                if ids.len() == 0 || found is Some {
                    StageView::Done(found)
                } else {
                    recordings_stage(ids.skip(1))
                }
            },
            StageView::Done(r) => StageView::Done(r),
        }
    }
}

/// The stage that asks for the recordings from `from` to `to`.
fn recordings(ids: &Vec<String>, from: usize, to: usize) -> (r: Stage)
    requires
        from <= to <= ids@.len(),
    ensures
        r@ == recordings_stage(texts(ids@).subrange(from as int, to as int)),
{
    let mut v: Vec<String> = Vec::new();
    let mut i: usize = from;
    while i < to
        invariant
            from <= i <= to <= ids@.len(),
            texts(v@) == texts(ids@).subrange(from as int, i as int),
        decreases to - i,
    {
        let ghost before = texts(v@);
        let id = ids[i].clone();
        let ghost idv = id@;
        assert(texts(ids@)[i as int] == idv);
        v.push(id);
        assert(texts(v@) =~= before.push(idv));
        assert(before.push(idv) =~= texts(ids@).subrange(from as int, i as int + 1));
        i = i + 1;
    }
    if v.len() == 0 {
        Stage::Done(None)
    } else {
        Stage::Recordings(v)
    }
}

impl UriLookup {
    /// A search that has not begun.
    pub fn new(title: &str, artist: &str, duration_us: i64) -> (r: UriLookup)
        ensures
            r@.title == title@,
            r@.artist == artist@,
            r@.duration_us == duration_us,
            r@.stage is Search,
    {
        UriLookup {
            title: title.to_owned(),
            artist: artist.to_owned(),
            duration_us,
            stage: Stage::Search,
        }
    }

    /// What the search has to do next.
    pub fn step(&self) -> (r: LookupStep)
        ensures
            r@ == self@.step(),
    {
        match &self.stage {
            Stage::Search => LookupStep::Fetch {
                url: search_address(self.title.as_str(), self.artist.as_str()),
                rest_ms: 0,
                named: false,
            },
            Stage::Isrc(i) => {
                let mut url = "https://musicbrainz.org/ws/2/isrc/".to_owned();
                url.append(i.as_str());
                url.append("?fmt=json");
                LookupStep::Fetch { url, rest_ms: REST_MS, named: true }
            },
            Stage::Recordings(ids) => {
                if ids.len() == 0 {
                    return LookupStep::Done(None);
                }
                assert(texts(ids@)[0] == ids@[0]@);
                let mut url = "https://musicbrainz.org/ws/2/recording/".to_owned();
                url.append(ids[0].as_str());
                url.append("?inc=url-rels&fmt=json");
                LookupStep::Fetch { url, rest_ms: REST_MS, named: true }
            },
            Stage::Done(r) => match r {
                Some(u) => LookupStep::Done(Some(u.clone())),
                None => LookupStep::Done(None),
            },
        }
    }

    /// Takes in a document, or that it could not be had.
    pub fn take(&mut self, doc: Option<Json>)
        ensures
            final(self)@ == (LookupView {
                stage: old(self)@.after(option_view(doc)),
                ..old(self)@
            }),
    {
        proof {
            broadcast use group_json_views;

        }
        let next = match &self.stage {
            Stage::Search => match &doc {
                Some(v) => match v.array_at("data") {
                    Some(a) => match find_isrc(a, self.artist.as_str(), self.duration_us) {
                        Some(isrc) => Stage::Isrc(isrc),
                        None => Stage::Done(None),
                    },
                    None => Stage::Done(None),
                },
                None => Stage::Done(None),
            },
            Stage::Isrc(_) => match &doc {
                Some(v) => match v.array_at("recordings") {
                    Some(a) => {
                        let ids = read_ids(a);
                        let n: usize = if ids.len() > RECORDINGS {
                            RECORDINGS
                        } else {
                            ids.len()
                        };
                        assert(texts(ids@).subrange(0, n as int) =~= if ids@.len() > RECORDINGS {
                            texts(ids@).take(RECORDINGS as int)
                        } else {
                            texts(ids@)
                        });
                        recordings(&ids, 0, n)
                    },
                    None => Stage::Done(None),
                },
                None => Stage::Done(None),
            },
            Stage::Recordings(ids) => {
                let found = match &doc {
                    Some(v) => read_recording(v),
                    None => None,
                };
                if ids.len() == 0 || found.is_some() {
                    Stage::Done(found)
                } else {
                    assert(texts(ids@).subrange(1, ids@.len() as int) =~= texts(ids@).skip(1));
                    recordings(ids, 1, ids.len())
                }
            },
            Stage::Done(r) => match r {
                Some(u) => Stage::Done(Some(u.clone())),
                None => Stage::Done(None),
            },
        };
        self.stage = next;
    }
}

/// How many documents a search asks for at most.
pub open spec fn fetches_left(s: StageView) -> nat {
    match s {
        StageView::Search => 5,
        StageView::Isrc(_) => 4,
        StageView::Recordings(ids) => ids.len(),
        StageView::Done(_) => 0,
    }
}

/// A search comes to its end: each document brings it nearer, and five are enough.
pub proof fn law_lookup_ends(l: LookupView, doc: Option<JsonView>)
    requires
        l.step() is Fetch,
        l.stage matches StageView::Recordings(ids) ==> ids.len() <= RECORDINGS,
    ensures
        fetches_left(l.after(doc)) < fetches_left(l.stage) <= 5,
        l.after(doc) matches StageView::Recordings(ids) ==> ids.len() <= RECORDINGS,
{
}

/// A uri that a search finds is that of a song of the catalogue, with an id of 22 bytes.
pub proof fn law_found_uri_is_of_the_catalogue(l: LookupView, doc: Option<JsonView>, u: Seq<char>)
    requires
        l.stage is Recordings,
        l.after(doc) == StageView::Done(Some(u)),
    ensures
        begins(u, TRACK_PREFIX@),
        encode_utf8(u.skip(TRACK_PREFIX@.len() as int)).len() == 22,
{
    let a = (doc->0).array_at("relations"@)->0;
    lemma_first_link(a);
}

/// The first usable link leads to a song of the catalogue.
proof fn lemma_first_link(a: Seq<JsonView>)
    ensures
        first_link(a) matches Some(u) ==> begins(u, TRACK_PREFIX@) && encode_utf8(
            u.skip(TRACK_PREFIX@.len() as int),
        ).len() == 22,
    decreases a.len(),
{
    if a.len() > 0 {
        if let Some(u) = link_uri(a[0]) {
            let s = nested(a[0], "url"@, "resource"@)->0.text()->0;
            let id = without_suffixes(
                s.skip("https://open.spotify.com/track/"@.len() as int),
                "/"@,
            );
            assert(u == TRACK_PREFIX@ + id);
            assert(u.take(TRACK_PREFIX@.len() as int) =~= TRACK_PREFIX@);
            assert(u.skip(TRACK_PREFIX@.len() as int) =~= id);
        } else {
            lemma_first_link(a.drop_first());
        }
    }
}

/// A query is written byte by byte: letters, digits and four signs as they are, any other byte as
/// a percent sign and two upper-case hexadecimal digits that give it.
pub proof fn law_query_is_written_byte_by_byte(a: Seq<u8>, b: u8)
    ensures
        query_bytes(Seq::empty()) == Seq::<char>::empty(),
        ({
            let q = query_bytes(a.push(b)).skip(query_bytes(a).len() as int);
            let plain = 'A' <= b as char <= 'Z' || 'a' <= b as char <= 'z' || '0' <= b as char
                <= '9' || b as char == '-' || b as char == '_' || b as char == '.' || b as char
                == '~';
            &&& query_bytes(a.push(b)).len() >= query_bytes(a).len()
            &&& query_bytes(a.push(b)).take(query_bytes(a).len() as int) == query_bytes(a)
            &&& plain ==> q == seq![b as char]
            &&& !plain ==> q.len() == 3 && q[0] == '%' && 16 * nibble(q[1]) + nibble(q[2]) == b
                && 0 <= nibble(q[1]) < 16 && 0 <= nibble(q[2]) < 16
        }),
{
    assert(a.push(b).drop_last() =~= a);
    let w = query_bytes(a.push(b));
    assert(w.take(query_bytes(a).len() as int) =~= query_bytes(a));
    assert(w.skip(query_bytes(a).len() as int) =~= query_byte(b));
}

/// The number that an upper-case hexadecimal digit gives.
pub open spec fn nibble(c: char) -> int {
    if '0' <= c <= '9' {
        c as u32 - 48
    } else if 'A' <= c <= 'F' {
        c as u32 - 55
    } else {
        -1
    }
}

/// A search begins with the title and the artist; what comes next is asked for by what was found,
/// with a rest of 1.1 s before each question and under the client's name.
pub proof fn law_lookup_asks_by_what_was_found(
    l: LookupView,
    isrc: Seq<char>,
    ids: Seq<Seq<char>>,
    found: Option<Seq<char>>,
)
    ensures
        l.stage == StageView::Search ==> l.step() == (LookupStepView::Fetch {
            url: "https://api.deezer.com/search?q="@ + query_bytes(
                encode_utf8(l.title + " "@ + l.artist),
            ),
            rest_ms: 0,
            named: false,
        }),
        l.stage == StageView::Isrc(isrc) ==> l.step() == (LookupStepView::Fetch {
            url: "https://musicbrainz.org/ws/2/isrc/"@ + isrc + "?fmt=json"@,
            rest_ms: 1100,
            named: true,
        }),
        l.stage == StageView::Recordings(ids) && ids.len() > 0 ==> l.step() == (
        LookupStepView::Fetch {
            url: "https://musicbrainz.org/ws/2/recording/"@ + ids[0] + "?inc=url-rels&fmt=json"@,
            rest_ms: 1100,
            named: true,
        }),
        l.stage == StageView::Done(found) ==> l.step() == LookupStepView::Done(found),
{
}

/// The first result that fits is the song: its ISRC is looked up, and results before it that do
/// not fit are passed over.
pub proof fn law_first_fitting_result_is_taken(
    l: LookupView,
    v: JsonView,
    a: Seq<JsonView>,
    place: Option<int>,
)
    requires
        l.stage == StageView::Search,
        v.array_at("data"@) == Some(a),
        match place {
            Some(i) => 0 <= i < a.len() && fits(a[i], l.artist, l.duration_us) && forall|j: int|
                0 <= j < i ==> !fits(#[trigger] a[j], l.artist, l.duration_us),
            None => forall|j: int|
                0 <= j < a.len() ==> !fits(#[trigger] a[j], l.artist, l.duration_us),
        },
    ensures
        l.after(None) == StageView::Done(None),
        match place {
            Some(i) => l.after(Some(v)) == match a[i].text_at("isrc"@) {
                Some(isrc) => StageView::Isrc(isrc),
                None => StageView::Done(None),
            },
            None => l.after(Some(v)) == StageView::Done(None),
        },
{
    lemma_first_isrc(a, l.artist, l.duration_us, place);
}

/// The ISRC of the first result that is the song, where its place is known.
proof fn lemma_first_isrc(
    a: Seq<JsonView>,
    artist: Seq<char>,
    duration_us: i64,
    place: Option<int>,
)
    requires
        match place {
            Some(i) => 0 <= i < a.len() && fits(a[i], artist, duration_us) && forall|j: int|
                0 <= j < i ==> !fits(#[trigger] a[j], artist, duration_us),
            None => forall|j: int| 0 <= j < a.len() ==> !fits(#[trigger] a[j], artist, duration_us),
        },
    ensures
        first_isrc(a, artist, duration_us) == match place {
            Some(i) => a[i].text_at("isrc"@),
            None => None,
        },
    decreases a.len(),
{
    if a.len() > 0 && !fits(a[0], artist, duration_us) {
        let b = a.drop_first();
        let q = match place {
            Some(i) => Some(i - 1),
            None => None,
        };
        assert forall|j: int| 0 <= j < b.len() implies #[trigger] b[j] == a[j + 1] by {}
        lemma_first_isrc(b, artist, duration_us, q);
    }
}

/// A result fits by its duration where that is within five seconds, longer or shorter, or not
/// known on one side; and by its artist where none is asked for.
pub proof fn law_result_fits_by_duration(t: JsonView, duration_us: i64)
    ensures
        ({
            let found = match t.scaled_at("duration"@, 1_000_000) {
                Some(n) => n as i64,
                None => 0,
            };
            let off = found - duration_us;
            fits(t, Seq::empty(), duration_us) <==> (duration_us <= 0 || found <= 0 || -5_000_000
                < off < 5_000_000)
        }),
        forall|artist: Seq<char>| #[trigger]
            fits(t, artist, duration_us) ==> fits(t, Seq::empty(), duration_us),
{
}

/// An artist fits where one of those found, told apart by commas, has the artist within it or is
/// within it, in lower case.
pub proof fn law_artist_fits_one_of_many(
    found: Seq<char>,
    artist: Seq<char>,
    i: int,
    front: Seq<char>,
    back: Seq<char>,
)
    requires
        0 <= i < parts(lowered(found), ',').len(),
        ({
            let p = trimmed(parts(lowered(found), ',')[i]);
            p.len() > 0 && (p == front + lowered(artist) + back || lowered(artist) == front + p
                + back)
        }),
    ensures
        artist_fits(found, artist),
{
    let p = trimmed(parts(lowered(found), ',')[i]);
    let a = lowered(artist);
    if p == front + a + back {
        assert(p.subrange(front.len() as int, front.len() as int + a.len()) =~= a);
        assert(crate::text::stands_at(p, a, front.len() as int));
    } else {
        assert(a.subrange(front.len() as int, front.len() as int + p.len()) =~= p);
        assert(crate::text::stands_at(a, p, front.len() as int));
    }
    assert(overlap(a, p));
}

/// The ids of recordings are read in their order, and values without one are left out.
pub proof fn law_ids_are_read_in_order(a: Seq<JsonView>, v: JsonView)
    ensures
        ids_of(Seq::empty()) == Seq::<Seq<char>>::empty(),
        ids_of(a.push(v)) == match v.text_at("id"@) {
            Some(s) => ids_of(a).push(s),
            None => ids_of(a),
        },
{
    assert(a.push(v).drop_last() =~= a);
}

/// Up to three recordings are looked at, one after another, until one leads to a song of the
/// catalogue.
pub proof fn law_recordings_are_looked_at_in_turn(
    l: LookupView,
    isrc: Seq<char>,
    v: JsonView,
    a: Seq<JsonView>,
    ids: Seq<Seq<char>>,
    doc: Option<JsonView>,
)
    ensures
        l.stage == StageView::Isrc(isrc) ==> {
            &&& l.after(None) == StageView::Done(None)
            &&& v.array_at("recordings"@) == Some(a) ==> {
                &&& ids_of(a).len() == 0 ==> l.after(Some(v)) == StageView::Done(None)
                &&& 1 <= ids_of(a).len() <= 3 ==> l.after(Some(v)) == StageView::Recordings(
                    ids_of(a),
                )
                &&& ids_of(a).len() > 3 ==> l.after(Some(v)) == StageView::Recordings(
                    seq![ids_of(a)[0], ids_of(a)[1], ids_of(a)[2]],
                )
            }
        },
        l.stage == StageView::Recordings(ids) && ids.len() > 0 ==> {
            let found = match doc {
                Some(w) => recording_uri(w),
                None => None,
            };
            &&& found is Some ==> l.after(doc) == StageView::Done(found)
            &&& found is None && ids.len() == 1 ==> l.after(doc) == StageView::Done(None)
            &&& found is None && ids.len() > 1 ==> l.after(doc) == StageView::Recordings(
                ids.drop_first(),
            )
        },
{
    if ids_of(a).len() > 3 {
        assert(ids_of(a).take(3) =~= seq![ids_of(a)[0], ids_of(a)[1], ids_of(a)[2]]);
    }
    if ids.len() > 0 {
        assert(ids.skip(1) =~= ids.drop_first());
    }
}

/// A recording leads to the song that its first usable link names.
pub proof fn law_first_usable_link_counts(v: JsonView, a: Seq<JsonView>, place: Option<int>)
    requires
        v.array_at("relations"@) == Some(a),
        match place {
            Some(i) => 0 <= i < a.len() && link_uri(a[i]) is Some && forall|j: int|
                0 <= j < i ==> link_uri(#[trigger] a[j]) is None,
            None => forall|j: int| 0 <= j < a.len() ==> link_uri(#[trigger] a[j]) is None,
        },
    ensures
        recording_uri(v) == match place {
            Some(i) => link_uri(a[i]),
            None => None,
        },
{
    lemma_first_link_at(a, place);
}

/// The first usable link, where its place is known.
proof fn lemma_first_link_at(a: Seq<JsonView>, place: Option<int>)
    requires
        match place {
            Some(i) => 0 <= i < a.len() && link_uri(a[i]) is Some && forall|j: int|
                0 <= j < i ==> link_uri(#[trigger] a[j]) is None,
            None => forall|j: int| 0 <= j < a.len() ==> link_uri(#[trigger] a[j]) is None,
        },
    ensures
        first_link(a) == match place {
            Some(i) => link_uri(a[i]),
            None => None,
        },
    decreases a.len(),
{
    if a.len() > 0 && link_uri(a[0]) is None {
        let b = a.drop_first();
        let q = match place {
            Some(i) => Some(i - 1),
            None => None,
        };
        assert forall|j: int| 0 <= j < b.len() implies #[trigger] b[j] == a[j + 1] by {}
        lemma_first_link_at(b, q);
    }
}

/// A link is usable where it is one for streaming and names a song of the catalogue by an id of 22
/// bytes, perhaps with slashes behind it.
pub proof fn law_link_names_a_song(rel: JsonView, url: JsonView, id: Seq<char>)
    requires
        rel.get("url"@) == Some(url),
        !ends(id, "/"@),
        url.text_at("resource"@) == Some("https://open.spotify.com/track/"@ + id)
            || url.text_at("resource"@) == Some("https://open.spotify.com/track/"@ + id + "/"@),
    ensures
        rel.text_at("type"@) != Some("streaming"@) && rel.text_at("type"@) != Some(
            "free streaming"@,
        ) ==> link_uri(rel) is None,
        rel.text_at("type"@) == Some("streaming"@) || rel.text_at("type"@) == Some(
            "free streaming"@,
        ) ==> link_uri(rel) == if encode_utf8(id).len() == 22 {
            Some("spotify:track:"@ + id)
        } else {
            None
        },
{
    let p = "https://open.spotify.com/track/"@;
    reveal_strlit("/");
    assert("/"@.len() == 1);
    law_suffix_is_gone(id, "/"@);
    assert((p + id).take(p.len() as int) =~= p);
    assert((p + id).skip(p.len() as int) =~= id);
    assert((p + id + "/"@).take(p.len() as int) =~= p);
    assert((p + id + "/"@).skip(p.len() as int) =~= id + "/"@);
}

} // verus!
