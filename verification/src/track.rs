//! Songs and listeners, and how messages carry them.
use crate::json::{entries, group_json_views, items, object, string, Json, JsonView};
use crate::text::{is_empty, same};
use vstd::prelude::*;

verus! {

/// A song.
#[derive(Debug, PartialEq)]
pub struct Track {
    pub uri: String,
    pub title: String,
    pub artist: String,
    pub art_url: String,
}

/// A song.
#[verifier::ext_equal]
pub struct TrackView {
    pub uri: Seq<char>,
    pub title: Seq<char>,
    pub artist: Seq<char>,
    pub art_url: Seq<char>,
}

impl View for Track {
    type V = TrackView;

    open spec fn view(&self) -> TrackView {
        TrackView {
            uri: self.uri@,
            title: self.title@,
            artist: self.artist@,
            art_url: self.art_url@,
        }
    }
}

impl Clone for Track {
    fn clone(&self) -> (r: Track)
        ensures
            r@ == self@,
    {
        Track {
            uri: self.uri.clone(),
            title: self.title.clone(),
            artist: self.artist.clone(),
            art_url: self.art_url.clone(),
        }
    }
}

impl Default for Track {
    fn default() -> (r: Track)
        ensures
            r@ == (TrackView {
                uri: Seq::empty(),
                title: Seq::empty(),
                artist: Seq::empty(),
                art_url: Seq::empty(),
            }),
    {
        Track {
            uri: String::new(),
            title: String::new(),
            artist: String::new(),
            art_url: String::new(),
        }
    }
}

/// The song that a JSON object describes: it has a `uri`, and its other fields may be missing.
pub open spec fn track_of(v: JsonView) -> Option<TrackView> {
    match v.text_at("uri"@) {
        Some(uri) => Some(
            TrackView {
                uri,
                title: v.text_or("title"@, ""@),
                artist: v.text_or("artist"@, ""@),
                art_url: v.text_or("artUrl"@, ""@),
            },
        ),
        None => None,
    }
}

/// The JSON object of a song.
pub open spec fn track_json(t: TrackView) -> JsonView {
    JsonView::Object(
        seq![
            ("artUrl"@, JsonView::Str(t.art_url)),
            ("artist"@, JsonView::Str(t.artist)),
            ("title"@, JsonView::Str(t.title)),
            ("uri"@, JsonView::Str(t.uri)),
        ],
    )
}

/// The songs that the values of an array describe; other values are left out.
pub open spec fn tracks_of(a: Seq<JsonView>) -> Seq<TrackView>
    decreases a.len(),
{
    if a.len() == 0 {
        Seq::empty()
    } else {
        match track_of(a.last()) {
            Some(t) => tracks_of(a.drop_last()).push(t),
            None => tracks_of(a.drop_last()),
        }
    }
}

/// The views of a list of songs.
pub open spec fn track_views(s: Seq<Track>) -> Seq<TrackView> {
    Seq::new(s.len(), |i: int| s[i]@)
}

/// The JSON array of a list of songs.
pub open spec fn queue_json(q: Seq<TrackView>) -> JsonView {
    JsonView::Array(Seq::new(q.len(), |i: int| track_json(q[i])))
}

/// The song that a JSON object describes.
pub fn track_from_json(v: &Json) -> (r: Option<Track>)
    ensures
        match r {
            Some(t) => track_of(v@) == Some(t@),
            None => track_of(v@) is None,
        },
{
    match v.str_at("uri") {
        Some(uri) => Some(
            Track {
                uri: uri.to_owned(),
                title: v.str_or("title", ""),
                artist: v.str_or("artist", ""),
                art_url: v.str_or("artUrl", ""),
            },
        ),
        None => None,
    }
}

impl Track {
    /// The song that a message's `np` field describes.
    pub fn from_np(np: &Json) -> (r: Option<Track>)
        ensures
            match r {
                Some(t) => track_of(np@) == Some(t@),
                None => track_of(np@) is None,
            },
    {
        track_from_json(np)
    }
}

/// The JSON object of a song.
pub fn track_to_json(t: &Track) -> (r: Json)
    ensures
        r@ == track_json(t@),
{
    let mut f: Vec<(String, Json)> = Vec::new();
    f.push(("artUrl".to_owned(), string(t.art_url.as_str())));
    f.push(("artist".to_owned(), string(t.artist.as_str())));
    f.push(("title".to_owned(), string(t.title.as_str())));
    f.push(("uri".to_owned(), string(t.uri.as_str())));
    assert(entries(f@) =~= track_json(t@)->Object_0);
    object(f)
}

/// The songs that the values of an array describe.
pub fn tracks_from_json(a: &Vec<Json>) -> (r: Vec<Track>)
    ensures
        track_views(r@) == tracks_of(items(a@)),
{
    let ghost v = items(a@);
    let mut r: Vec<Track> = Vec::new();
    let n: usize = a.len();
    let mut i: usize = 0;
    assert(v.take(0) =~= Seq::empty());
    while i < n
        invariant
            n == a@.len(),
            i <= n,
            v == items(a@),
            track_views(r@) == tracks_of(v.take(i as int)),
        decreases n - i,
    {
        assert(v.take(i as int + 1).drop_last() =~= v.take(i as int));
        let ghost before = track_views(r@);
        if let Some(t) = track_from_json(&a[i]) {
            let ghost tv = t@;
            r.push(t);
            assert(track_views(r@) =~= before.push(tv));
        }
        i = i + 1;
    }
    assert(v.take(n as int) =~= v);
    r
}

/// The JSON array of a list of songs.
pub fn queue_to_json(q: &Vec<Track>) -> (r: Json)
    ensures
        r@ == queue_json(track_views(q@)),
{
    let mut a: Vec<Json> = Vec::new();
    let n: usize = q.len();
    let mut i: usize = 0;
    while i < n
        invariant
            n == q@.len(),
            i <= n,
            a@.len() == i,
            forall|k: int| 0 <= k < i ==> (#[trigger] a@[k])@ == track_json(q@[k]@),
        decreases n - i,
    {
        a.push(track_to_json(&q[i]));
        i = i + 1;
    }
    proof {
        broadcast use group_json_views;

        assert(items(a@) =~= queue_json(track_views(q@))->Array_0);
    }
    Json::Array(a)
}

/// A copy of a list of songs.
pub fn clone_tracks(q: &Vec<Track>) -> (r: Vec<Track>)
    ensures
        track_views(r@) == track_views(q@),
{
    let mut r: Vec<Track> = Vec::new();
    let n: usize = q.len();
    let mut i: usize = 0;
    while i < n
        invariant
            n == q@.len(),
            i <= n,
            r@.len() == i,
            forall|k: int| 0 <= k < i ==> (#[trigger] r@[k])@ == q@[k]@,
        decreases n - i,
    {
        r.push(q[i].clone());
        i = i + 1;
    }
    assert(track_views(r@) =~= track_views(q@));
    r
}

/// The songs with another uri.
pub open spec fn without_uri(q: Seq<TrackView>, uri: Seq<char>) -> Seq<TrackView>
    decreases q.len(),
{
    if q.len() == 0 {
        q
    } else if q.last().uri == uri {
        without_uri(q.drop_last(), uri)
    } else {
        without_uri(q.drop_last(), uri).push(q.last())
    }
}

/// Takes every song with the given uri out of a list.
pub fn remove_uri(q: &Vec<Track>, uri: &str) -> (r: Vec<Track>)
    ensures
        track_views(r@) == without_uri(track_views(q@), uri@),
{
    let ghost v = track_views(q@);
    let mut r: Vec<Track> = Vec::new();
    let n: usize = q.len();
    let mut i: usize = 0;
    assert(v.take(0) =~= Seq::empty());
    while i < n
        invariant
            n == q@.len(),
            i <= n,
            v == track_views(q@),
            track_views(r@) == without_uri(v.take(i as int), uri@),
        decreases n - i,
    {
        assert(v.take(i as int + 1).drop_last() =~= v.take(i as int));
        let ghost before = track_views(r@);
        if !same(q[i].uri.as_str(), uri) {
            r.push(q[i].clone());
            assert(track_views(r@) =~= before.push(v[i as int]));
        }
        i = i + 1;
    }
    assert(v.take(n as int) =~= v);
    r
}

/// The list with the song at `from` moved to `to`, or to the end where `to` lies behind it.
pub open spec fn moved(q: Seq<TrackView>, from: int, to: int) -> Seq<TrackView> {
    let rest = q.remove(from);
    rest.insert(
        if to < rest.len() {
            to
        } else {
            rest.len() as int
        },
        q[from],
    )
}

/// Moves a song within a list.
pub fn move_track(q: &mut Vec<Track>, from: usize, to: usize)
    requires
        from < old(q)@.len(),
    ensures
        track_views(final(q)@) == moved(track_views(old(q)@), from as int, to as int),
{
    let ghost v = track_views(q@);
    let item = q.remove(from);
    let n: usize = q.len();
    let to: usize = if to < n {
        to
    } else {
        n
    };
    q.insert(to, item);
    assert(track_views(q@) =~= moved(v, from as int, to as int));
}

/// The first place of a song with the given uri.
pub open spec fn place_of(q: Seq<TrackView>, uri: Seq<char>) -> Option<nat>
    decreases q.len(),
{
    if q.len() == 0 {
        None
    } else if q[0].uri == uri {
        Some(0)
    } else {
        match place_of(q.drop_first(), uri) {
            Some(i) => Some(i + 1),
            None => None,
        }
    }
}

/// The first place of a song with the given uri.
pub fn find_uri(q: &Vec<Track>, uri: &str) -> (r: Option<usize>)
    ensures
        match r {
            Some(i) => i < q@.len() && place_of(track_views(q@), uri@) == Some(i as nat),
            None => place_of(track_views(q@), uri@) is None,
        },
{
    let ghost v = track_views(q@);
    let n: usize = q.len();
    let mut i: usize = 0;
    assert(v.skip(0) =~= v);
    while i < n
        invariant
            n == q@.len(),
            i <= n,
            v == track_views(q@),
            place_of(v, uri@) == match place_of(v.skip(i as int), uri@) {
                Some(k) => Some((k + i) as nat),
                None => None,
            },
        decreases n - i,
    {
        if same(q[i].uri.as_str(), uri) {
            return Some(i);
        }
        assert(v.skip(i as int).drop_first() =~= v.skip(i as int + 1));
        i = i + 1;
    }
    None
}

/// Takes the first `n` songs off a list.
pub fn drop_front(q: &Vec<Track>, n: usize) -> (r: Vec<Track>)
    requires
        n <= q@.len(),
    ensures
        track_views(r@) == track_views(q@).skip(n as int),
{
    let len: usize = q.len();
    let mut r: Vec<Track> = Vec::new();
    let mut i: usize = n;
    while i < len
        invariant
            len == q@.len(),
            n <= i <= len,
            r@.len() == i - n,
            forall|k: int| 0 <= k < i - n ==> (#[trigger] r@[k])@ == q@[k + n]@,
        decreases len - i,
    {
        r.push(q[i].clone());
        i = i + 1;
    }
    assert(track_views(r@) =~= track_views(q@).skip(n as int));
    r
}

/// A song of the list with what it lacks of the artist and the picture, where the uri is right.
pub open spec fn filled(
    t: TrackView,
    uri: Seq<char>,
    artist: Seq<char>,
    art_url: Seq<char>,
) -> TrackView {
    if t.uri == uri {
        TrackView {
            artist: if t.artist.len() == 0 {
                artist
            } else {
                t.artist
            },
            art_url: if t.art_url.len() == 0 {
                art_url
            } else {
                t.art_url
            },
            ..t
        }
    } else {
        t
    }
}

/// The list with what its songs of the given uri lack of the artist and the picture.
pub open spec fn backfilled(
    q: Seq<TrackView>,
    uri: Seq<char>,
    artist: Seq<char>,
    art_url: Seq<char>,
) -> Seq<TrackView> {
    Seq::new(q.len(), |i: int| filled(q[i], uri, artist, art_url))
}

/// Fills in what the songs of the given uri lack of the artist and the picture.
pub fn backfill(q: &Vec<Track>, uri: &str, artist: &str, art_url: &str) -> (r: Vec<Track>)
    ensures
        track_views(r@) == backfilled(track_views(q@), uri@, artist@, art_url@),
{
    let mut r: Vec<Track> = Vec::new();
    let n: usize = q.len();
    let mut i: usize = 0;
    while i < n
        invariant
            n == q@.len(),
            i <= n,
            r@.len() == i,
            forall|k: int|
                0 <= k < i ==> (#[trigger] r@[k])@ == filled(q@[k]@, uri@, artist@, art_url@),
        decreases n - i,
    {
        let mut t = q[i].clone();
        if same(t.uri.as_str(), uri) {
            if is_empty(t.artist.as_str()) {
                t.artist = artist.to_owned();
            }
            if is_empty(t.art_url.as_str()) {
                t.art_url = art_url.to_owned();
            }
        }
        r.push(t);
        i = i + 1;
    }
    assert(track_views(r@) =~= backfilled(track_views(q@), uri@, artist@, art_url@));
    r
}

/// A listener.
#[derive(Debug)]
pub struct Member {
    pub id: String,
    pub name: String,
    pub is_host: bool,
}

/// A listener.
#[verifier::ext_equal]
pub struct MemberView {
    pub id: Seq<char>,
    pub name: Seq<char>,
    pub is_host: bool,
}

impl View for Member {
    type V = MemberView;

    open spec fn view(&self) -> MemberView {
        MemberView { id: self.id@, name: self.name@, is_host: self.is_host }
    }
}

impl Clone for Member {
    fn clone(&self) -> (r: Member)
        ensures
            r@ == self@,
    {
        Member { id: self.id.clone(), name: self.name.clone(), is_host: self.is_host }
    }
}

impl Default for Member {
    fn default() -> (r: Member)
        ensures
            r@ == (MemberView { id: Seq::empty(), name: Seq::empty(), is_host: false }),
    {
        Member { id: String::new(), name: String::new(), is_host: false }
    }
}

/// The views of a list of listeners.
pub open spec fn member_views(s: Seq<Member>) -> Seq<MemberView> {
    Seq::new(s.len(), |i: int| s[i]@)
}

/// The listener that a JSON value describes.
pub open spec fn member_of(v: JsonView) -> MemberView {
    MemberView {
        id: v.text_or("id"@, ""@),
        name: v.text_or("name"@, "Listener"@),
        is_host: v.bool_at("isHost"@) == Some(true),
    }
}

/// The listeners that the values of an array describe.
pub open spec fn members_of(a: Seq<JsonView>) -> Seq<MemberView> {
    Seq::new(a.len(), |i: int| member_of(a[i]))
}

/// The listeners that the values of an array describe.
pub fn members_from_json(a: &Vec<Json>) -> (r: Vec<Member>)
    ensures
        member_views(r@) == members_of(items(a@)),
{
    let mut r: Vec<Member> = Vec::new();
    let n: usize = a.len();
    let mut i: usize = 0;
    while i < n
        invariant
            n == a@.len(),
            i <= n,
            r@.len() == i,
            forall|k: int| 0 <= k < i ==> (#[trigger] r@[k])@ == member_of(a@[k]@),
        decreases n - i,
    {
        let v = &a[i];
        let is_host = match v.bool_at("isHost") {
            Some(b) => b,
            None => false,
        };
        r.push(Member { id: v.str_or("id", ""), name: v.str_or("name", "Listener"), is_host });
        i = i + 1;
    }
    assert(member_views(r@) =~= members_of(items(a@)));
    r
}

/// A copy of a list of listeners.
pub fn clone_members(q: &Vec<Member>) -> (r: Vec<Member>)
    ensures
        member_views(r@) == member_views(q@),
{
    let mut r: Vec<Member> = Vec::new();
    let n: usize = q.len();
    let mut i: usize = 0;
    while i < n
        invariant
            n == q@.len(),
            i <= n,
            r@.len() == i,
            forall|k: int| 0 <= k < i ==> (#[trigger] r@[k])@ == q@[k]@,
        decreases n - i,
    {
        r.push(q[i].clone());
        i = i + 1;
    }
    assert(member_views(r@) =~= member_views(q@));
    r
}

/// The hosts among the listeners.
pub open spec fn hosts(s: Seq<MemberView>) -> Seq<MemberView>
    decreases s.len(),
{
    if s.len() == 0 {
        s
    } else if s.last().is_host {
        hosts(s.drop_last()).push(s.last())
    } else {
        hosts(s.drop_last())
    }
}

/// The hosts among the listeners.
pub fn keep_hosts(s: &Vec<Member>) -> (r: Vec<Member>)
    ensures
        member_views(r@) == hosts(member_views(s@)),
{
    let ghost v = member_views(s@);
    let mut r: Vec<Member> = Vec::new();
    let n: usize = s.len();
    let mut i: usize = 0;
    assert(v.take(0) =~= Seq::empty());
    while i < n
        invariant
            n == s@.len(),
            i <= n,
            v == member_views(s@),
            member_views(r@) == hosts(v.take(i as int)),
        decreases n - i,
    {
        assert(v.take(i as int + 1).drop_last() =~= v.take(i as int));
        let ghost before = member_views(r@);
        if s[i].is_host {
            r.push(s[i].clone());
            assert(member_views(r@) =~= before.push(v[i as int]));
        }
        i = i + 1;
    }
    assert(v.take(n as int) =~= v);
    r
}

/// A song is found at its first place in a list, and not found where it has none.
pub proof fn law_place_is_the_first(q: Seq<TrackView>, uri: Seq<char>)
    ensures
        match place_of(q, uri) {
            Some(i) => i < q.len() && q[i as int].uri == uri && forall|j: int|
                0 <= j < i ==> (#[trigger] q[j]).uri != uri,
            None => forall|j: int| 0 <= j < q.len() ==> (#[trigger] q[j]).uri != uri,
        },
    decreases q.len(),
{
    if q.len() > 0 && q[0].uri != uri {
        let r = q.drop_first();
        law_place_is_the_first(r, uri);
        assert forall|j: int| 0 <= j < q.len() implies (#[trigger] q[j]) == if j == 0 {
            q[0]
        } else {
            r[j - 1]
        } by {}
        match place_of(r, uri) {
            Some(i) => {
                assert forall|j: int| 0 <= j < i + 1 implies (#[trigger] q[j]).uri != uri by {
                    if j > 0 {
                        assert(r[j - 1].uri != uri);
                    }
                }
            },
            None => {
                assert forall|j: int| 0 <= j < q.len() implies (#[trigger] q[j]).uri != uri by {
                    if j > 0 {
                        assert(r[j - 1].uri != uri);
                    }
                }
            },
        }
    }
}

/// Taking a song out of a list leaves the others, in their order.
pub proof fn law_removing_keeps_the_order(q: Seq<TrackView>, uri: Seq<char>)
    ensures
        without_uri(q, uri) == q.filter(|t: TrackView| t.uri != uri),
    decreases q.len(),
{
    reveal(Seq::filter);
    if q.len() > 0 {
        law_removing_keeps_the_order(q.drop_last(), uri);
    } else {
        assert(q =~= Seq::empty());
    }
}

/// Filling in touches only the songs of the given uri, and only what they lack.
pub proof fn law_only_gaps_are_filled(
    q: Seq<TrackView>,
    uri: Seq<char>,
    artist: Seq<char>,
    art_url: Seq<char>,
    i: int,
)
    requires
        0 <= i < q.len(),
    ensures
        ({
            let r = backfilled(q, uri, artist, art_url);
            &&& r.len() == q.len()
            &&& r[i].uri == q[i].uri
            &&& r[i].title == q[i].title
            &&& q[i].uri != uri ==> r[i] == q[i]
            &&& q[i].artist.len() > 0 ==> r[i].artist == q[i].artist
            &&& q[i].art_url.len() > 0 ==> r[i].art_url == q[i].art_url
            &&& q[i].uri == uri && q[i].artist.len() == 0 ==> r[i].artist == artist
            &&& q[i].uri == uri && q[i].art_url.len() == 0 ==> r[i].art_url == art_url
        }),
{
}

/// The hosts among the listeners are those that say so, in their order.
pub proof fn law_hosts_are_those_that_say_so(s: Seq<MemberView>)
    ensures
        hosts(s) == s.filter(|m: MemberView| m.is_host),
    decreases s.len(),
{
    reveal(Seq::filter);
    if s.len() > 0 {
        law_hosts_are_those_that_say_so(s.drop_last());
    } else {
        assert(s =~= Seq::empty());
    }
}

/// The songs of a list of values are those of its parts, one after another; a value that is no
/// song has none.
pub proof fn law_songs_are_read_one_by_one(a: Seq<JsonView>, b: Seq<JsonView>)
    ensures
        tracks_of(a + b) == tracks_of(a) + tracks_of(b),
        a.len() == 1 ==> tracks_of(a) == match track_of(a[0]) {
            Some(t) => seq![t],
            None => Seq::empty(),
        },
    decreases b.len(),
{
    if b.len() > 0 {
        law_songs_are_read_one_by_one(a, b.drop_last());
        assert((a + b).drop_last() =~= a + b.drop_last());
        assert((a + b).last() == b.last());
        assert(tracks_of(a + b) =~= tracks_of(a) + tracks_of(b));
    } else {
        assert(a + b =~= a);
        assert(tracks_of(a + b) =~= tracks_of(a) + tracks_of(b));
    }
    if a.len() == 1 {
        assert(a.drop_last() =~= Seq::empty());
        reveal_with_fuel(tracks_of, 2);
        match track_of(a[0]) {
            Some(t) => {
                assert(tracks_of(a) =~= seq![t]);
            },
            None => {
                assert(tracks_of(a) =~= Seq::empty());
            },
        }
    }
}

/// A song is read from a value that names its uri; what else it does not say is empty. A listener
/// is read from any value, under a name that stands for one that is missing.
pub proof fn law_songs_and_listeners_are_read(v: JsonView)
    ensures
        track_of(v) is Some <==> v.text_at("uri"@) is Some,
        track_of(v) matches Some(t) ==> {
            &&& v.text_at("uri"@) == Some(t.uri)
            &&& t.title == match v.text_at("title"@) {
                Some(s) => s,
                None => ""@,
            }
            &&& t.artist == match v.text_at("artist"@) {
                Some(s) => s,
                None => ""@,
            }
            &&& t.art_url == match v.text_at("artUrl"@) {
                Some(s) => s,
                None => ""@,
            }
        },
        member_of(v).id == match v.text_at("id"@) {
            Some(s) => s,
            None => ""@,
        },
        member_of(v).name == match v.text_at("name"@) {
            Some(s) => s,
            None => "Listener"@,
        },
        member_of(v).is_host <==> v.get("isHost"@) == Some(JsonView::Bool(true)),
        ""@.len() == 0,
{
    reveal_strlit("");
}

/// Every listener is read, each by itself, in their order.
pub proof fn law_listeners_are_read_one_by_one(a: Seq<JsonView>, i: int)
    requires
        0 <= i < a.len(),
    ensures
        members_of(a).len() == a.len(),
        members_of(a)[i] == member_of(a[i]),
{
}

} // verus!
