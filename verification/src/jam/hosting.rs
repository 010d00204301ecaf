//! Host: welcoming the guest, the queue, and telling the guest what plays.
use super::{
    Cont, ContView, CoreView, JamCore, PlayerOp, PlayerOpView, Purpose, PurposeView, SharedView,
    Title, TitleView, WatchView, WhoView, title_views,
};
use crate::clock::{later, stamp_of, SECOND};
use crate::json::{Json, JsonView};
use crate::messages::{
    bare, init, init_json, int_option, members, members_json, play, play_json, play_state,
    play_state_json, queue, queue_message_json, sync_tick, sync_tick_json, typed,
};
use crate::player::{PlayerState, PlayerStateView};
use crate::position::{read_position, PosTracker};
use crate::text::{
    after_prefix, begins, begins_with, dec, dec_signed, decimal, decimal_signed, is_empty,
    option_view, same,
};
use crate::track::{
    backfill, backfilled, clone_members, clone_tracks, drop_front, find_uri, member_views, place_of,
    track_views, Member, MemberView, Track, TrackView,
};
use vstd::prelude::*;

verus! {

/// What was found out last about a song, if anything.
pub open spec fn cached(titles: Seq<TitleView>, uri: Seq<char>) -> Option<TitleView>
    decreases titles.len(),
{
    if titles.len() == 0 {
        None
    } else if titles.last().uri == uri {
        Some(titles.last())
    } else {
        cached(titles.drop_last(), uri)
    }
}

/// A song with a title, and with a picture where it had none.
pub open spec fn titled(t: TrackView, title: Seq<char>, art_url: Seq<char>) -> TrackView {
    TrackView {
        title,
        art_url: if t.art_url.len() == 0 {
            art_url
        } else {
            t.art_url
        },
        ..t
    }
}

/// What tells one song of the host's player from another: the uri, or all that is known where
/// there is none.
pub open spec fn watch_key(s: PlayerStateView) -> Seq<char> {
    if s.uri.len() == 0 {
        s.title + seq!['\u{1}'] + s.artist + seq!['\u{1}'] + dec_signed(s.duration_us as int)
    } else {
        s.uri
    }
}

/// What tells one song of the host's player from another.
fn key_of(s: &PlayerState) -> (r: String)
    ensures
        r@ == watch_key(s@),
{
    if is_empty(s.uri.as_str()) {
        let mut k = s.title.clone();
        k.push('\u{1}');
        k.append(s.artist.as_str());
        k.push('\u{1}');
        k.append(decimal_signed(s.duration_us).as_str());
        assert(k@ =~= watch_key(s@));
        k
    } else {
        s.uri.clone()
    }
}

/// Whether the uri has just been found out for the song that played already.
pub open spec fn rekeyed(last: Option<Seq<char>>, s: PlayerStateView) -> bool {
    &&& s.uri.len() > 0
    &&& last matches Some(k) && begins(k, s.title + seq!['\u{1}'])
}

/// Whether the uri has just been found out for the song that played already.
fn is_rekeyed(last: &Option<String>, s: &PlayerState) -> (r: bool)
    ensures
        r == rekeyed(option_view(*last), s@),
{
    if is_empty(s.uri.as_str()) {
        return false;
    }
    match last {
        Some(k) => {
            let mut p = s.title.clone();
            p.push('\u{1}');
            assert(p@ =~= s@.title + seq!['\u{1}']);
            begins_with(k.as_str(), p.as_str())
        },
        None => false,
    }
}

/// The address of a song's description, for a song of the catalogue.
pub open spec fn oembed_url(uri: Seq<char>) -> Option<Seq<char>> {
    if begins(uri, "spotify:track:"@) {
        Some(
            "https://open.spotify.com/oembed?url=spotify%3Atrack%3A"@ + uri.skip(
                "spotify:track:"@.len() as int,
            ),
        )
    } else {
        None
    }
}

/// The address of a song's description, for a song of the catalogue.
pub fn oembed(uri: &str) -> (r: Option<String>)
    ensures
        option_view(r) == oembed_url(uri@),
{
    match after_prefix(uri, "spotify:track:") {
        Some(id) => {
            let mut u = "https://open.spotify.com/oembed?url=spotify%3Atrack%3A".to_owned();
            u.append(id.as_str());
            Some(u)
        },
        None => None,
    }
}

impl CoreView {
    /// With a queue that everybody is told of.
    #[verifier::opaque]
    pub open spec fn requeued(self, q: Seq<TrackView>) -> CoreView {
        let c = CoreView { queue: q, ..self }.sent(queue_message_json(q));
        CoreView { shared: SharedView { queue: q, ..c.shared }, ..c }
    }

    /// With the guest told what plays; a position of `None` is that of a song that has begun.
    #[verifier::opaque]
    pub open spec fn announced(self, s: PlayerStateView, pos: Option<int>) -> CoreView {
        self.sent(
            play_json(
                s.duration_us as int,
                s.track(),
                !s.playing,
                pos,
                stamp_of(self.clock) as int,
                s.uri,
            ),
        )
    }

    /// With what the player reports taken into the position.
    pub open spec fn fed(self, s: PlayerStateView, playing: bool) -> CoreView {
        CoreView { pos: self.pos.fed(self.now(), s.position_us, playing), ..self }
    }

    /// The position to go by, given what the player reports.
    pub open spec fn reading(self, s: PlayerStateView, playing: bool) -> i64 {
        read_position(self.pos, self.now(), s.position_us, playing)
    }

    /// With the guest told what plays, at the position to go by.
    pub open spec fn broadcast(self, s: PlayerStateView) -> CoreView {
        self.fed(s, s.playing).announced(s, Some(self.reading(s, s.playing) as int))
    }

    /// With a guest welcomed, after what the player is doing is known.
    #[verifier::opaque]
    pub open spec fn welcomed(self, name: Seq<char>, st: Option<PlayerStateView>) -> CoreView {
        let host = self.shared.display_name;
        let (c, progress, playing, duration) = match st {
            Some(s) => (
                self.fed(s, s.playing),
                self.reading(s, s.playing) as int,
                s.playing,
                s.duration_us as int,
            ),
            None => (self, 0, false, 0),
        };
        let np = match st {
            Some(s) => Some(s.track()),
            None => None,
        };
        let d = c.sent(
            init_json(duration, self.who.gc, host, name, np, playing, progress, self.queue),
        );
        let e = match st {
            Some(s) => d.announced(s, Some(progress)),
            None => d,
        };
        let f = e.sent(members_json(host, name));
        let both = seq![
            MemberView { id: "host"@, name: host, is_host: true },
            MemberView { id: "guest"@, name, is_host: false },
        ];
        CoreView {
            who: WhoView { members: both, ..f.who },
            shared: SharedView { members: both, connected: true, ..f.shared },
            ..f
        }.logged("guest joined the Jam :3"@)
    }

    /// With the guest told what plays, where anything is known of it.
    #[verifier::opaque]
    pub open spec fn synced(self, st: Option<PlayerStateView>) -> CoreView {
        match st {
            Some(s) if s.known() => self.broadcast(s),
            _ => self,
        }
    }

    /// With a song looked up: from what was found out before, or by asking.
    #[verifier::opaque]
    pub open spec fn looked_up(self, t: TrackView, purpose: PurposeView) -> CoreView {
        if t.title.len() > 0 {
            self.served(t, purpose)
        } else {
            match cached(self.titles, t.uri) {
                Some(k) => self.served(titled(t, k.title, k.art_url), purpose),
                None => if oembed_url(t.uri) is Some {
                    self.asked(ContView::Meta { track: t, purpose })
                } else {
                    self.served(t, purpose)
                },
            }
        }
    }

    /// With a song's description known.
    #[verifier::opaque]
    pub open spec fn described(self, t: TrackView, v: JsonView, purpose: PurposeView) -> CoreView {
        let title = v.text_or("title"@, ""@);
        let art_url = v.text_or("thumbnail_url"@, ""@);
        CoreView {
            titles: self.titles.push(TitleView { uri: t.uri, title, art_url }),
            ..self
        }.served(titled(t, title, art_url), purpose)
    }

    /// With a song's description not to be had in the first way; another one is tried.
    #[verifier::opaque]
    pub open spec fn lookup_failed(
        self,
        t: TrackView,
        problem: Seq<char>,
        purpose: PurposeView,
    ) -> CoreView {
        self.logged(problem).asked(ContView::Curl { track: t, purpose })
    }

    /// With the answer of the second way.
    #[verifier::opaque]
    pub open spec fn looked_up_again(
        self,
        t: TrackView,
        v: Option<JsonView>,
        purpose: PurposeView,
    ) -> CoreView {
        match v {
            Some(v) => self.logged("oembed: resolved via curl fallback"@).described(t, v, purpose),
            None => self.logged("oembed: could not resolve "@ + t.uri).served(t, purpose),
        }
    }

    /// With a song, as far as it could be looked up, used for what it was asked for.
    #[verifier::opaque]
    pub open spec fn served(self, t: TrackView, purpose: PurposeView) -> CoreView {
        match purpose {
            PurposeView::Queue(who) => self.offered(t, who),
            PurposeView::Play => self.logged("playing guest request: "@ + t.title).told(
                PlayerOpView::Open { uri: t.uri, title: t.title, artist: t.artist },
            ),
        }
    }

    /// With a song offered to the player's own queue, unless that has none or playback is left
    /// alone.
    #[verifier::opaque]
    pub open spec fn offered(self, t: TrackView, who: Seq<char>) -> CoreView {
        if self.own_queue != Some(false) && !self.dry_run {
            self.asked(ContView::Enqueue { track: t, who })
        } else {
            self.enqueued(t, who, false)
        }
    }

    /// With a song in the queue; `owned` tells that the player's own queue has it too.
    #[verifier::opaque]
    pub open spec fn enqueued(self, t: TrackView, who: Seq<char>, owned: bool) -> CoreView {
        let q = self.queue.push(t);
        let c = CoreView {
            own_queue: if owned {
                Some(true)
            } else {
                self.own_queue
            },
            queue: q,
            ..self
        }.logged(
            "queue += "@ + t.title + " (from "@ + who + ") — "@ + dec(q.len()) + " up next"@
                + if owned {
                " (player queue)"@
            } else {
                ""@
            },
        ).requeued(q);
        if owned {
            c
        } else {
            c.asked(ContView::QueueStart)
        }
    }

    /// With the queue started where the player has nothing to play.
    #[verifier::opaque]
    pub open spec fn queue_started(self, st: Option<PlayerStateView>) -> CoreView {
        match st {
            Some(s) if s.uri.len() == 0 => self.played_next(),
            _ => self,
        }
    }

    /// With the first song of the queue played.
    #[verifier::opaque]
    pub open spec fn played_next(self) -> CoreView {
        if self.queue.len() == 0 {
            self.logged("queue empty"@)
        } else {
            let t = self.queue[0];
            let q = self.queue.skip(1);
            CoreView { queue: q, ..self }.logged(
                "host: playing "@ + t.title + " (queue: "@ + dec(q.len()) + ")"@,
            ).told(
                PlayerOpView::Open { uri: t.uri, title: t.title, artist: t.artist },
            ).requeued(q)
        }
    }

    /// With the next song: the player's, where it has a queue of its own or there is no queue,
    /// and else the first of the queue.
    #[verifier::opaque]
    pub open spec fn skipped(self) -> CoreView {
        if self.own_queue == Some(true) || self.queue.len() == 0 {
            self.told(PlayerOpView::Next)
        } else {
            self.played_next()
        }
    }

    /// With the current song shown.
    pub open spec fn showing(self, s: PlayerStateView) -> CoreView {
        CoreView {
            shared: SharedView {
                now_playing: Some(s.track()),
                playing: s.playing,
                ..self.shared
            },
            ..self
        }
    }

    /// With a song that has just begun announced at its start. Reports that are far off are
    /// taken for stale during the next five seconds.
    #[verifier::opaque]
    pub open spec fn begun(self, s: PlayerStateView) -> CoreView {
        let anchored = self.pos.anchored(self.now(), 0);
        CoreView {
            pos: PosTracker {
                grace_until: Some(later(self.now(), (5 * SECOND) as u64)),
                ..anchored
            },
            ..self
        }.announced(s, None).showing(s)
    }

    /// With the queue freed of what has just begun to play and what stood before it.
    #[verifier::opaque]
    pub open spec fn drained(self, s: PlayerStateView) -> CoreView {
        match place_of(self.queue, s.uri) {
            Some(i) => self.requeued(self.queue.skip(i as int + 1)),
            None => self,
        }
    }

    /// With the artist and picture of the current song filled in where the queue lacks them.
    #[verifier::opaque]
    pub open spec fn completed(self, s: PlayerStateView) -> CoreView {
        if s.artist.len() > 0 || s.art_url.len() > 0 {
            self.requeued(backfilled(self.queue, s.uri, s.artist, s.art_url))
        } else {
            self
        }
    }

    /// With a change of song told.
    #[verifier::opaque]
    pub open spec fn changed(self, s: PlayerStateView, rekey: bool) -> CoreView {
        if rekey {
            self.broadcast(s).showing(s)
        } else if !s.known() {
            self.sent(typed("PAUSE"@))
        } else if s.uri.len() == 0 {
            self.begun(s)
        } else {
            self.drained(s).completed(s).begun(s)
        }
    }

    /// With a change between playing and paused told.
    #[verifier::opaque]
    pub open spec fn toggled(self, s: PlayerStateView) -> CoreView {
        if s.playing {
            self.broadcast(s)
        } else {
            self.sent(typed("PAUSE"@))
        }
    }

    /// With what the player is doing noted; a new song starts the position anew.
    #[verifier::opaque]
    pub open spec fn noted(self, s: PlayerStateView) -> CoreView {
        let key = watch_key(s);
        CoreView {
            pos: if self.watch.last_uri != Some(key) {
                self.pos.forgotten()
            } else {
                self.pos
            },
            watch: WatchView { last_uri: Some(key), last_playing: Some(s.playing) },
            ..self
        }
    }

    /// With what the player is doing shown.
    #[verifier::opaque]
    pub open spec fn shown(self, s: PlayerStateView, new_song: bool) -> CoreView {
        let c = self.fed(s, s.playing);
        CoreView {
            shared: SharedView {
                progress_us: self.reading(s, s.playing),
                duration_us: s.duration_us,
                playing: s.playing,
                now_playing: if new_song && s.title.len() > 0 {
                    Some(s.track())
                } else {
                    c.shared.now_playing
                },
                ..c.shared
            },
            ..c
        }
    }

    /// With what the player is doing compared to what it did before, and told.
    #[verifier::opaque]
    pub open spec fn watched(self, s: PlayerStateView) -> CoreView {
        let last = self.watch.last_uri;
        let new_song = last != Some(watch_key(s));
        let c = self.noted(s);
        let d = if new_song && last is Some {
            c.changed(s, rekeyed(last, s))
        } else if !new_song && self.watch.last_playing != Some(s.playing) {
            c.toggled(s)
        } else {
            c
        };
        d.shown(s, new_song)
    }

    /// With the position sent to measure drift by, where something plays.
    #[verifier::opaque]
    pub open spec fn position_sent(self, st: Option<PlayerStateView>) -> CoreView {
        match st {
            Some(s) if s.playing && s.known() => self.fed(s, true).sent(
                sync_tick_json(self.reading(s, true) as int, stamp_of(self.clock) as int),
            ),
            _ => self,
        }
    }

    /// With a pause asserted again.
    #[verifier::opaque]
    pub open spec fn pause_asserted(self, st: Option<PlayerStateView>) -> CoreView {
        match st {
            Some(s) if !s.playing => self.sent(typed("PAUSE"@)).sent(
                play_state_json(
                    s.duration_us as int,
                    false,
                    s.position_us as int,
                    stamp_of(self.clock) as int,
                ),
            ),
            _ => self,
        }
    }
}

/// The place of a song's title among those that were found out, if it is there.
fn find_title(titles: &Vec<Title>, uri: &str) -> (r: Option<usize>)
    ensures
        match r {
            Some(i) => i < titles@.len() && cached(title_views(titles@), uri@) == Some(
                titles@[i as int]@,
            ),
            None => cached(title_views(titles@), uri@) is None,
        },
{
    let ghost v = title_views(titles@);
    let n: usize = titles.len();
    let mut i: usize = n;
    assert(v.take(n as int) =~= v);
    while i > 0
        invariant
            n == titles@.len(),
            i <= n,
            v == title_views(titles@),
            cached(v, uri@) == cached(v.take(i as int), uri@),
        decreases i,
    {
        assert(v.take(i as int).last() == titles@[i - 1]@);
        assert(v.take(i as int).drop_last() =~= v.take(i - 1));
        i = i - 1;
        if same(titles[i].uri.as_str(), uri) {
            return Some(i);
        }
    }
    None
}

/// Gives a song a title, and a picture where it has none.
fn retitle(t: Track, title: &str, art_url: &str) -> (r: Track)
    ensures
        r@ == titled(t@, title@, art_url@),
{
    let mut t = t;
    t.title = title.to_owned();
    if is_empty(t.art_url.as_str()) {
        t.art_url = art_url.to_owned();
    }
    t
}

impl JamCore {
    /// Replaces the queue and tells everybody.
    pub(super) fn set_queue(&mut self, q: Vec<Track>)
        ensures
            final(self)@ == old(self)@.requeued(track_views(q@)),
    {
        proof {
            reveal(CoreView::requeued);
        }
        self.queue = q;
        let msg = queue(&self.queue);
        self.send(msg);
        self.shared.queue = clone_tracks(&self.queue);
    }

    /// Tells the guest what plays.
    fn announce(&mut self, s: &PlayerState, pos: Option<i64>)
        ensures
            final(self)@ == old(self)@.announced(s@, int_option(pos)),
    {
        proof {
            reveal(CoreView::announced);
        }
        let np = s.track();
        self.send(
            play(s.duration_us, &np, !s.playing, pos, self.clock.now_ms(), s.uri.as_str()),
        );
    }

    /// Takes what the player reports into the position and gives the position to go by.
    fn feed(&mut self, s: &PlayerState, playing: bool) -> (r: i64)
        ensures
            final(self)@ == old(self)@.fed(s@, playing),
            r == old(self)@.reading(s@, playing),
    {
        let clock = self.clock;
        self.pos.feed(&clock, s.position_us, playing)
    }

    /// Tells the guest what plays, at the position to go by.
    pub(super) fn host_broadcast_play(&mut self, s: &PlayerState)
        ensures
            final(self)@ == old(self)@.broadcast(s@),
    {
        let pos: i64 = self.feed(s, s.playing);
        self.announce(s, Some(pos));
    }

    /// Welcomes a guest.
    pub(super) fn welcome(&mut self, name: &str, st: Option<PlayerState>)
        ensures
            final(self)@ == old(self)@.welcomed(name@, option_view(st)),
    {
        proof {
            reveal(CoreView::welcomed);
        }
        let host = self.shared.display_name.clone();
        let ghost hostv = host@;
        let msg: Json;
        match &st {
            Some(s) => {
                let progress: i64 = self.feed(s, s.playing);
                let np = Some(s.track());
                msg = init(
                    s.duration_us,
                    self.who.gc,
                    host.as_str(),
                    name,
                    &np,
                    s.playing,
                    progress,
                    &self.queue,
                );
                self.send(msg);
                self.announce(s, Some(progress));
            },
            None => {
                msg = init(0, self.who.gc, host.as_str(), name, &None, false, 0, &self.queue);
                self.send(msg);
            },
        }
        self.send(members(host.as_str(), name));
        let mut both: Vec<Member> = Vec::new();
        both.push(Member { id: "host".to_owned(), name: host, is_host: true });
        both.push(Member { id: "guest".to_owned(), name: name.to_owned(), is_host: false });
        assert(member_views(both@) =~= seq![
            MemberView { id: "host"@, name: hostv, is_host: true },
            MemberView { id: "guest"@, name: name@, is_host: false },
        ]);
        self.shared.members = clone_members(&both);
        self.shared.connected = true;
        self.who.members = both;
        self.log("guest joined the Jam :3");
    }

    /// Tells the guest what plays, where anything is known of it.
    pub(super) fn answer_sync(&mut self, st: Option<PlayerState>)
        ensures
            final(self)@ == old(self)@.synced(option_view(st)),
    {
        proof {
            reveal(CoreView::synced);
        }
        if let Some(s) = st {
            if s.known() {
                self.host_broadcast_play(&s);
            }
        }
    }

    /// Looks a song up.
    pub(super) fn resolve_track_meta(&mut self, t: Track, purpose: Purpose)
        ensures
            final(self)@ == old(self)@.looked_up(t@, purpose@),
    {
        proof {
            reveal(CoreView::looked_up);
        }
        if !is_empty(t.title.as_str()) {
            self.serve(t, purpose);
            return;
        }
        match find_title(&self.titles, t.uri.as_str()) {
            Some(i) => {
                let t = retitle(t, self.titles[i].title.as_str(), self.titles[i].art_url.as_str());
                self.serve(t, purpose);
            },
            None => {
                if oembed(t.uri.as_str()).is_some() {
                    self.ask(Cont::Meta { track: t, purpose });
                } else {
                    self.serve(t, purpose);
                }
            },
        }
    }

    /// Takes in a song's description.
    pub(super) fn describe(&mut self, t: Track, v: &Json, purpose: Purpose)
        ensures
            final(self)@ == old(self)@.described(t@, v@, purpose@),
    {
        proof {
            reveal(CoreView::described);
        }
        let title = v.str_or("title", "");
        let art_url = v.str_or("thumbnail_url", "");
        let entry = Title {
            uri: t.uri.clone(),
            title: title.clone(),
            art_url: art_url.clone(),
        };
        let ghost before = title_views(self.titles@);
        let ghost ev = entry@;
        self.titles.push(entry);
        assert(title_views(self.titles@) =~= before.push(ev));
        let t = retitle(t, title.as_str(), art_url.as_str());
        self.serve(t, purpose);
    }

    /// Tries another way to a song's description.
    pub(super) fn fail_lookup(&mut self, t: Track, problem: &str, purpose: Purpose)
        ensures
            final(self)@ == old(self)@.lookup_failed(t@, problem@, purpose@),
    {
        proof {
            reveal(CoreView::lookup_failed);
        }
        self.log(problem);
        self.ask(Cont::Curl { track: t, purpose });
    }

    /// Takes in the answer of the second way.
    pub(super) fn finish_lookup(&mut self, t: Track, v: Option<Json>, purpose: Purpose)
        ensures
            final(self)@ == old(self)@.looked_up_again(t@, option_view(v), purpose@),
    {
        proof {
            reveal(CoreView::looked_up_again);
        }
        match v {
            Some(v) => {
                self.log("oembed: resolved via curl fallback");
                self.describe(t, &v, purpose);
            },
            None => {
                let mut m = "oembed: could not resolve ".to_owned();
                m.append(t.uri.as_str());
                self.log(m.as_str());
                self.serve(t, purpose);
            },
        }
    }

    /// Uses a song for what it was asked for.
    fn serve(&mut self, t: Track, purpose: Purpose)
        ensures
            final(self)@ == old(self)@.served(t@, purpose@),
    {
        proof {
            reveal(CoreView::served);
        }
        match purpose {
            Purpose::Queue(who) => self.offer(t, who),
            Purpose::Play => {
                let mut m = "playing guest request: ".to_owned();
                m.append(t.title.as_str());
                self.log(m.as_str());
                self.tell(PlayerOp::Open { uri: t.uri, title: t.title, artist: t.artist });
            },
        }
    }

    /// Offers a song to the player's own queue.
    fn offer(&mut self, t: Track, who: String)
        ensures
            final(self)@ == old(self)@.offered(t@, who@),
    {
        proof {
            reveal(CoreView::offered);
        }
        let may = match self.own_queue {
            Some(b) => b,
            None => true,
        };
        if may && !self.dry_run {
            self.ask(Cont::Enqueue { track: t, who });
        } else {
            self.enqueue(t, who.as_str(), false);
        }
    }

    /// Adds a song to the queue.
    pub(super) fn enqueue(&mut self, t: Track, who: &str, owned: bool)
        ensures
            final(self)@ == old(self)@.enqueued(t@, who@, owned),
    {
        proof {
            reveal(CoreView::enqueued);
        }
        if owned {
            self.own_queue = Some(true);
        }
        let mut m = "queue += ".to_owned();
        m.append(t.title.as_str());
        m.append(" (from ");
        m.append(who);
        m.append(") — ");
        let ghost before = track_views(self.queue@);
        let ghost tv = t@;
        let mut q = clone_tracks(&self.queue);
        q.push(t);
        assert(track_views(q@) =~= before.push(tv));
        self.queue = clone_tracks(&q);
        m.append(decimal(q.len() as u64).as_str());
        m.append(" up next");
        m.append(if owned { " (player queue)" } else { "" });
        self.log(m.as_str());
        self.set_queue(q);
        if !owned {
            self.ask(Cont::QueueStart);
        }
    }

    /// Starts the queue where the player has nothing to play.
    pub(super) fn start_queue(&mut self, st: Option<PlayerState>)
        ensures
            final(self)@ == old(self)@.queue_started(option_view(st)),
    {
        proof {
            reveal(CoreView::queue_started);
        }
        if let Some(s) = st {
            if is_empty(s.uri.as_str()) {
                self.host_play_next();
            }
        }
    }

    /// Plays the first song of the queue.
    fn host_play_next(&mut self)
        ensures
            final(self)@ == old(self)@.played_next(),
    {
        proof {
            reveal(CoreView::played_next);
        }
        if self.queue.len() == 0 {
            self.log("queue empty");
            return;
        }
        let t = self.queue[0].clone();
        let q = drop_front(&self.queue, 1);
        self.queue = clone_tracks(&q);
        let mut m = "host: playing ".to_owned();
        m.append(t.title.as_str());
        m.append(" (queue: ");
        m.append(decimal(q.len() as u64).as_str());
        m.append(")");
        self.log(m.as_str());
        self.tell(PlayerOp::Open { uri: t.uri, title: t.title, artist: t.artist });
        self.set_queue(q);
    }

    /// Goes to the next song.
    pub(super) fn host_next(&mut self)
        ensures
            final(self)@ == old(self)@.skipped(),
    {
        proof {
            reveal(CoreView::skipped);
        }
        let own = match self.own_queue {
            Some(b) => b,
            None => false,
        };
        if own || self.queue.len() == 0 {
            self.tell(PlayerOp::Next);
        } else {
            self.host_play_next();
        }
    }

    /// Shows the current song.
    fn show(&mut self, s: &PlayerState)
        ensures
            final(self)@ == old(self)@.showing(s@),
    {
        self.shared.now_playing = Some(s.track());
        self.shared.playing = s.playing;
    }

    /// Announces a song that has just begun.
    fn begin(&mut self, s: &PlayerState)
        ensures
            final(self)@ == old(self)@.begun(s@),
    {
        proof {
            reveal(CoreView::begun);
        }
        let clock = self.clock;
        self.pos.anchor(&clock, 0);
        self.pos.grace_until = Some(clock.after(5 * SECOND));
        self.announce(s, None);
        self.show(s);
    }

    /// Frees the queue of what has just begun to play and what stood before it.
    fn drain(&mut self, s: &PlayerState)
        ensures
            final(self)@ == old(self)@.drained(s@),
    {
        proof {
            reveal(CoreView::drained);
        }
        if let Some(i) = find_uri(&self.queue, s.uri.as_str()) {
            let n: usize = self.queue.len();
            assert(i < n);
            let q = drop_front(&self.queue, i + 1);
            self.set_queue(q);
        }
    }

    /// Fills in what the queue lacks of the current song.
    fn complete(&mut self, s: &PlayerState)
        ensures
            final(self)@ == old(self)@.completed(s@),
    {
        proof {
            reveal(CoreView::completed);
        }
        if !is_empty(s.artist.as_str()) || !is_empty(s.art_url.as_str()) {
            let q = backfill(
                &self.queue,
                s.uri.as_str(),
                s.artist.as_str(),
                s.art_url.as_str(),
            );
            self.set_queue(q);
        }
    }

    /// Tells a change of song.
    fn change(&mut self, s: &PlayerState, rekey: bool)
        ensures
            final(self)@ == old(self)@.changed(s@, rekey),
    {
        proof {
            reveal(CoreView::changed);
        }
        if rekey {
            self.host_broadcast_play(s);
            self.show(s);
        } else if !s.known() {
            self.send(bare("PAUSE"));
        } else if is_empty(s.uri.as_str()) {
            self.begin(s);
        } else {
            self.drain(s);
            self.complete(s);
            self.begin(s);
        }
    }

    /// Tells a change between playing and paused.
    fn toggle(&mut self, s: &PlayerState)
        ensures
            final(self)@ == old(self)@.toggled(s@),
    {
        proof {
            reveal(CoreView::toggled);
        }
        if s.playing {
            self.host_broadcast_play(s);
        } else {
            self.send(bare("PAUSE"));
        }
    }

    /// Notes what the player is doing, and tells whether the song is new.
    fn note(&mut self, s: &PlayerState) -> (new_song: bool)
        ensures
            final(self)@ == old(self)@.noted(s@),
            new_song == (old(self)@.watch.last_uri != Some(watch_key(s@))),
    {
        proof {
            reveal(CoreView::noted);
        }
        let key = key_of(s);
        let new_song = match &self.watch.last_uri {
            Some(k) => !same(k.as_str(), key.as_str()),
            None => true,
        };
        if new_song {
            self.pos.reset();
        }
        self.watch.last_uri = Some(key);
        self.watch.last_playing = Some(s.playing);
        new_song
    }

    /// Shows what the player is doing.
    fn show_progress(&mut self, s: &PlayerState, new_song: bool)
        ensures
            final(self)@ == old(self)@.shown(s@, new_song),
    {
        proof {
            reveal(CoreView::shown);
        }
        let shown: i64 = self.feed(s, s.playing);
        self.shared.progress_us = shown;
        self.shared.duration_us = s.duration_us;
        self.shared.playing = s.playing;
        if new_song && !is_empty(s.title.as_str()) {
            self.shared.now_playing = Some(s.track());
        }
    }

    /// Compares what the player is doing to what it did before, and tells it.
    pub(super) fn watch_player(&mut self, s: &PlayerState)
        ensures
            final(self)@ == old(self)@.watched(s@),
    {
        proof {
            reveal(CoreView::watched);
        }
        let first = self.watch.last_uri.is_none();
        let rekey = is_rekeyed(&self.watch.last_uri, s);
        let toggled = match self.watch.last_playing {
            Some(p) => p != s.playing,
            None => true,
        };
        let new_song = self.note(s);
        if new_song && !first {
            self.change(s, rekey);
        } else if !new_song && toggled {
            self.toggle(s);
        }
        self.show_progress(s, new_song);
    }

    /// Sends the position to measure drift by, where something plays.
    pub(super) fn send_position(&mut self, st: Option<PlayerState>)
        ensures
            final(self)@ == old(self)@.position_sent(option_view(st)),
    {
        proof {
            reveal(CoreView::position_sent);
        }
        if let Some(s) = st {
            if s.playing && s.known() {
                let pos: i64 = self.feed(&s, true);
                self.send(sync_tick(pos, self.clock.now_ms()));
            }
        }
    }

    /// Asserts a pause again.
    pub(super) fn assert_pause(&mut self, st: Option<PlayerState>)
        ensures
            final(self)@ == old(self)@.pause_asserted(option_view(st)),
    {
        proof {
            reveal(CoreView::pause_asserted);
        }
        if let Some(s) = st {
            if !s.playing {
                self.send(bare("PAUSE"));
                self.send(
                    play_state(s.duration_us, false, s.position_us, self.clock.now_ms()),
                );
            }
        }
    }
}

} // verus!
