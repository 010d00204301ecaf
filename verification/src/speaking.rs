//! What holds of what the players are told, and of what they say.
use crate::backends::{
    cliamp_call_of, cliamp_song, cliamp_view, first_tries, floor_ms, is_grant, listed,
    looked_up_uri, mpris_view, now_playing_of, program_base, same_song, sane_length, song_key,
    spotifast_args_of, texts_in, token_step_of, web_song_of, whole_seconds, NowPlayingView,
    ResolvedView, SpotifastView, TokenStepView,
};
use crate::jam::delivery::lemma_entry;
use crate::jam::PlayerOpView;
use crate::json::{JsonView, Number};
use crate::text::{
    begins, dec, first_line_of, glued, law_behind_begins_after_the_last_stop,
    law_parts_make_the_text, law_prefix_is_gone, law_suffix_is_gone, lowered, occurs, parts,
    stands_at,
};
use vstd::prelude::*;

verus! {

/// Seconds are whole, and none is missed; a position before the start is the start.
pub proof fn law_seconds_are_whole(us: int)
    ensures
        us < 0 ==> whole_seconds(us) == 0 && floor_ms(us) == 0,
        us >= 0 ==> {
            &&& whole_seconds(us) * 1_000_000 <= us < whole_seconds(us) * 1_000_000 + 1_000_000
            &&& floor_ms(us) <= us < floor_ms(us) + 1000
            &&& floor_ms(us) % 1000 == 0
        },
{
}

/// The texts of a list stand one behind the other with commas between them; what is no text is
/// left out.
pub proof fn law_names_are_listed(a: Seq<JsonView>, v: JsonView)
    ensures
        listed(Seq::empty()) == Seq::<char>::empty(),
        v.text() is None ==> listed(a.push(v)) == listed(a) && texts_in(a.push(v)) == texts_in(a),
        v.text() matches Some(s) ==> {
            &&& texts_in(a.push(v)) == texts_in(a) + 1
            &&& texts_in(a) == 0 ==> listed(a.push(v)) == s
            &&& texts_in(a) > 0 ==> listed(a.push(v)) == listed(a) + ", "@ + s
        },
        texts_in(Seq::empty()) == 0,
{
    assert(a.push(v).drop_last() =~= a);
}

/// What a player on the session bus says of its song is understood, with an envelope round the
/// whole or without.
pub proof fn law_bus_player_is_understood(
    status: Seq<char>,
    position_us: i64,
    m: JsonView,
    id: Seq<char>,
    dir: Seq<char>,
)
    requires
        -0x1000_0000_0000_0000 <= position_us <= 0x1000_0000_0000_0000,
        forall|i: int| 0 <= i < id.len() ==> (#[trigger] id[i]) != '/' && id[i] != '_',
        dir.len() > 0 ==> dir.last() == '/' || dir.last() == '_',
    ensures
        ({
            let s = mpris_view(status, position_us, m);
            let b = match m.get("value"@) {
                Some(v) => v,
                None => m,
            };
            &&& s.playing <==> status == "Playing"@
            &&& s.position_us == position_us
            &&& b.get("xesam:title"@) matches Some(v) ==> (v.get("value"@) matches Some(
                JsonView::Str(t),
            ) ==> s.title == t)
            &&& b.get("xesam:title"@) is None ==> s.title.len() == 0
            &&& b.get("mpris:artUrl"@) matches Some(v) ==> (v.get("value"@) matches Some(
                JsonView::Str(t),
            ) ==> s.art_url == t)
            &&& b.get("mpris:length"@) matches Some(v) ==> (v.get("value"@) matches Some(
                JsonView::Number(Number::PosInt(n)),
            ) ==> (n <= 0x1000_0000_0000_0000 ==> s.duration_us == n))
            &&& b.get("mpris:length"@) is None ==> s.duration_us == 0
            &&& b.get("xesam:artist"@) matches Some(v) ==> (v.get("value"@) matches Some(
                JsonView::Array(a),
            ) ==> s.artist == listed(a))
            &&& b.get("xesam:url"@) matches Some(v) ==> (v.get("value"@) matches Some(
                JsonView::Str(u),
            ) ==> (begins(u, "spotify:track:"@) ==> s.uri == u))
            &&& b.get("xesam:url"@) is None ==> (b.get("mpris:trackid"@) matches Some(v) ==> (v.get(
                "value"@,
            ) == Some(JsonView::Str(dir + id)) ==> s.uri == "spotify:track:"@ + id))
        }),
{
    let t = dir + id;
    let stop = "/_"@;
    reveal_strlit("/_");
    assert(stop.len() == 2 && stop[0] == '/' && stop[1] == '_');
    let u = crate::text::behind(t, stop);
    law_behind_begins_after_the_last_stop(t, stop);
    assert(stop.contains('/')) by {
        assert(stop[0] == '/');
    }
    assert(stop.contains('_')) by {
        assert(stop[1] == '_');
    }
    if u.len() < id.len() {
        assert(t[t.len() - u.len() - 1] == id[id.len() - u.len() - 1]);
    }
    if u.len() > id.len() {
        let k = u.len() - id.len() - 1;
        assert(u[k] == t.skip(t.len() - u.len())[k]);
        assert(t[dir.len() - 1] == dir.last());
    }
    assert(t.skip(dir.len() as int) =~= id);
}

/// A length in seconds counts up to a day; one that is negative or longer is taken for none.
pub proof fn law_length_is_up_to_a_day(n: u64, i: i64)
    ensures
        n <= 86_400 ==> sane_length(Number::PosInt(n)) == n * 1_000_000,
        n > 86_400 ==> sane_length(Number::PosInt(n)) == 0,
        sane_length(Number::NegInt(i)) == 0,
{
}

/// What cliamp says is understood: seconds become microseconds, and a path is a uri where it is
/// one of the catalogue.
pub proof fn law_cliamp_is_understood(v: JsonView, t: JsonView)
    requires
        v.get("track"@) == Some(t),
    ensures
        ({
            let s = cliamp_view(v);
            &&& s.playing <==> v.get("state"@) == Some(JsonView::Str("playing"@))
            &&& v.get("position"@) matches Some(JsonView::Number(Number::PosInt(n))) ==> (n
                <= 1_000_000_000 ==> s.position_us == n * 1_000_000)
            &&& v.get("position"@) is None ==> s.position_us == 0
            &&& v.get("duration"@) matches Some(JsonView::Number(n)) ==> s.duration_us
                == sane_length(n)
            &&& t.get("title"@) matches Some(JsonView::Str(x)) ==> s.title == x
            &&& t.get("artist"@) matches Some(JsonView::Str(x)) ==> s.artist == x
            &&& t.get("path"@) matches Some(JsonView::Str(x)) ==> if begins(
                x,
                "spotify:track:"@,
            ) {
                s.uri == x
            } else {
                s.uri.len() == 0
            }
            &&& s.art_url.len() == 0
        }),
{
}

/// A song that cliamp is asked to play is named by its uri, its id, its title and its artist; one
/// without title is called by its id.
pub proof fn law_cliamp_song_is_named(id: Seq<char>, title: Seq<char>, artist: Seq<char>)
    requires
        !begins(id, "spotify:track:"@),
    ensures
        ({
            let uri = "spotify:track:"@ + id;
            let p = cliamp_song(uri, title, artist);
            &&& p.get("track"@) matches Some(t) && t.text_at("path"@) == Some(uri) && t.text_at(
                "artist"@,
            ) == Some(artist) && t.text_at("title"@) == Some(
                if title.len() > 0 {
                    title
                } else {
                    id
                },
            ) && (t.get("provider_meta"@) matches Some(m) && m.text_at("kind"@) == Some(
                "track"@,
            ) && m.text_at("trackID"@) == Some(id))
        }),
{
    reveal_strlit("spotify:track:");
    assert("spotify:track:"@.len() == 14);
    law_prefix_is_gone(id, "spotify:track:"@);
    reveal_strlit("track");
    reveal_strlit("artist");
    reveal_strlit("path");
    reveal_strlit("provider_meta");
    reveal_strlit("title");
    reveal_strlit("kind");
    reveal_strlit("trackID");
    assert("artist"@.len() == 6);
    assert("path"@.len() == 4);
    assert("provider_meta"@.len() == 13);
    assert("title"@.len() == 5);
    assert("kind"@.len() == 4);
    assert("trackID"@.len() == 7);
    let p = cliamp_song("spotify:track:"@ + id, title, artist)->Object_0;
    lemma_entry(p, 0);
    let t = p[0].1->Object_0;
    lemma_entry(t, 0);
    lemma_entry(t, 1);
    lemma_entry(t, 2);
    lemma_entry(t, 3);
    let m = t[2].1->Object_0;
    lemma_entry(m, 0);
    lemma_entry(m, 1);
}

/// What a player is told reaches its program under the program's own words; a song without uri is
/// never opened.
pub proof fn law_players_are_told_in_their_words(
    us: i64,
    uri: Seq<char>,
    title: Seq<char>,
    artist: Seq<char>,
)
    ensures
        spotifast_args_of(PlayerOpView::Play) == seq!["play"@],
        spotifast_args_of(PlayerOpView::Pause) == seq!["pause"@],
        spotifast_args_of(PlayerOpView::Next) == seq!["next"@],
        us >= 0 ==> spotifast_args_of(PlayerOpView::Seek(us)) == seq![
            "seek-to"@,
            dec((us / 1_000_000) as nat),
        ],
        us < 0 ==> spotifast_args_of(PlayerOpView::Seek(us)) == seq!["seek-to"@, dec(0)],
        spotifast_args_of(PlayerOpView::Open { uri, title, artist }) == if uri.len() > 0 {
            seq!["play-uri"@, uri]
        } else {
            Seq::empty()
        },
        cliamp_call_of(PlayerOpView::Play) matches Some(c) && c.op == "runtime.play"@,
        cliamp_call_of(PlayerOpView::Pause) matches Some(c) && c.op == "runtime.pause"@,
        cliamp_call_of(PlayerOpView::Next) matches Some(c) && c.op == "runtime.next"@,
        us >= 0 ==> (cliamp_call_of(PlayerOpView::Seek(us)) matches Some(c) && c.op
            == "seek.absolute"@ && c.params.uint_at("value"@) == Some((us / 1_000_000) as u64)),
        match cliamp_call_of(PlayerOpView::Open { uri, title, artist }) {
            Some(c) => uri.len() > 0 && c.op == "track.play"@ && c.params == cliamp_song(
                uri,
                title,
                artist,
            ),
            None => uri.len() == 0,
        },
{
    let o = crate::backends::value_params(whole_seconds(us as int))->Object_0;
    lemma_entry(o, 0);
}

/// What came of looking a song up is known from then on, and says nothing of other songs.
pub proof fn law_lookup_is_remembered(
    p: SpotifastView,
    title: Seq<char>,
    artist: Seq<char>,
    found: Option<Seq<char>>,
    other: Seq<char>,
)
    requires
        p.resolving == Some(song_key(title, artist)),
    ensures
        ({
            let r = p.finished(found);
            &&& r.resolving is None
            &&& r.bin == p.bin
            &&& looked_up_uri(r.resolved, song_key(title, artist)) == Some(found)
            &&& other != song_key(title, artist) ==> looked_up_uri(r.resolved, other)
                == looked_up_uri(p.resolved, other)
        }),
{
    let e = ResolvedView { key: song_key(title, artist), uri: found };
    assert(p.resolved.push(e).drop_last() =~= p.resolved);
}

/// A look-up of which nothing is under way has no end.
pub proof fn law_no_lookup_no_end(p: SpotifastView, found: Option<Seq<char>>)
    requires
        p.resolving is None,
    ensures
        p.finished(found) == p,
{
}

/// Songs are told apart by title and artist.
pub proof fn law_songs_are_told_apart(
    title: Seq<char>,
    artist: Seq<char>,
    other_title: Seq<char>,
    other_artist: Seq<char>,
)
    requires
        !title.contains('|'),
        !other_title.contains('|'),
        song_key(title, artist) == song_key(other_title, other_artist),
    ensures
        title == other_title,
        artist == other_artist,
{
    reveal_strlit("|");
    assert("|"@.len() == 1 && "|"@[0] == '|');
    let k = song_key(title, artist);
    assert(k[title.len() as int] == '|');
    assert(k[other_title.len() as int] == '|');
    if title.len() < other_title.len() {
        assert(other_title[title.len() as int] == '|');
    }
    if other_title.len() < title.len() {
        assert(title[other_title.len() as int] == '|');
    }
    assert(k.take(title.len() as int) =~= title);
    assert(k.take(title.len() as int) =~= other_title);
    assert(k.skip(title.len() as int + 1) =~= artist);
    assert(k.skip(title.len() as int + 1) =~= other_artist);
}

/// What spotifast's program prints is understood: the fields of the first line, which are told
/// apart by tabs, are the state, the title, the artist, another, the position, the duration, three
/// others, and the picture. A line with fewer than ten fields says nothing.
pub proof fn law_spotifast_is_understood(out: Seq<char>, line: Seq<char>, f: Seq<Seq<char>>)
    requires
        first_line_of(out) == Some(line),
        f == parts(line, '\t'),
    ensures
        glued(f, '\t') == line,
        f.len() < 10 ==> now_playing_of(out) is None,
        f.len() >= 10 ==> now_playing_of(out) == Some(
            NowPlayingView {
                playing: crate::text::alike(f[0], "playing"@),
                title: f[1],
                artist: f[2],
                position: f[4],
                duration: f[5],
                art_url: f[9],
            },
        ),
{
    law_parts_make_the_text(line, '\t');
}

/// A stored token is used until a minute before it expires, and a new one is asked for after
/// that; without a client and a refresh token there is no way to one.
pub proof fn law_token_is_used_while_it_is_good(g: JsonView, v: JsonView, web: JsonView, now: i64)
    requires
        v.get("grant"@) == Some(g),
        g.get("Web"@) == Some(web),
    ensures
        web.text_at("client_id"@) is None || web.text_at("refresh_token"@) is None
            ==> token_step_of(v, now) is None,
        web.text_at("client_id"@) matches Some(c) ==> (web.text_at("refresh_token"@) matches Some(
            r,
        ) ==> {
            let until = match web.int_at("expires_at"@) {
                Some(n) => n as int,
                None => 0,
            };
            &&& now + 60 < until ==> token_step_of(v, now) == match web.text_at("access_token"@) {
                Some(t) => Some(TokenStepView::Use(t)),
                None => None,
            }
            &&& now + 60 >= until ==> token_step_of(v, now) == Some(
                TokenStepView::Refresh { client_id: c, refresh_token: r },
            )
        }),
{
}

/// The song that the web says is playing is the one of the catalogue that it names.
pub proof fn law_web_song_is_of_the_catalogue(v: JsonView, item: JsonView)
    requires
        v.get("item"@) == Some(item),
    ensures
        match item.text_at("uri"@) {
            Some(uri) => if begins(uri, "spotify:track:"@) {
                web_song_of(v) == Some(
                    (
                        uri,
                        match item.text_at("name"@) {
                            Some(n) => n,
                            None => Seq::empty(),
                        },
                    ),
                )
            } else {
                web_song_of(v) is None
            },
            None => web_song_of(v) is None,
        },
{
}

/// A stored credential is the grant by its name, whoever wrote it, and only with content.
pub proof fn law_grant_is_known_by_its_name(user: Seq<char>, target: Seq<char>)
    ensures
        is_grant(user + ":shared-web.rocks.fastpotify.Fastpotify"@, true),
        is_grant(user + ":shared-web.rocks.spotifast.Spotifast"@, true),
        !is_grant(target, false),
{
    let a = ":shared-web.rocks.fastpotify.Fastpotify"@;
    let b = ":shared-web.rocks.spotifast.Spotifast"@;
    assert((user + a).skip(user.len() as int) =~= a);
    assert((user + b).skip(user.len() as int) =~= b);
}

/// A program is known by its name with its ending and without.
pub proof fn law_ending_of_a_program_does_not_count(name: Seq<char>, full: Seq<char>)
    requires
        lowered(full) == lowered(name) + ".exe"@,
    ensures
        program_base(full) == program_base(name),
{
    reveal_strlit(".exe");
    assert(".exe"@.len() == 4);
    law_suffix_is_gone(lowered(name), ".exe"@);
}

/// Two titles are those of one song either way round, and a title that stands within another, in
/// lower case, is that of the same song.
pub proof fn law_titles_agree_either_way(
    a: Seq<char>,
    b: Seq<char>,
    front: Seq<char>,
    back: Seq<char>,
)
    ensures
        same_song(a, b) == same_song(b, a),
        same_song(a, a),
        lowered(a) == front + lowered(b) + back ==> same_song(a, b),
{
    if lowered(a) == front + lowered(b) + back {
        assert(lowered(a).subrange(
            front.len() as int,
            front.len() as int + lowered(b).len(),
        ) =~= lowered(b));
        assert(stands_at(lowered(a), lowered(b), front.len() as int));
        assert(occurs(lowered(a), lowered(b)));
    }
}

/// A configured program is tried first and the running one directly behind it; where none is
/// configured the running one is tried first.
pub proof fn law_running_program_is_tried_early(
    configured: Option<Seq<char>>,
    running: Seq<char>,
    usual: Seq<char>,
)
    ensures
        configured is None ==> first_tries(configured, Some(running), usual) == seq![
            running,
            usual,
        ],
        configured matches Some(b) ==> first_tries(configured, Some(running), usual) == seq![
            b,
            running,
        ],
        configured is None ==> first_tries(configured, None, usual) == seq![usual],
        configured matches Some(b) ==> first_tries(configured, None, usual) == seq![b],
{
    assert(configured is None ==> first_tries(configured, Some(running), usual) =~= seq![
        running,
        usual,
    ]);
    if let Some(b) = configured {
        assert(first_tries(configured, Some(running), usual) =~= seq![b, running]);
        assert(first_tries(configured, None, usual) =~= seq![b]);
    } else {
        assert(first_tries(configured, None, usual) =~= seq![usual]);
    }
}

} // verus!
