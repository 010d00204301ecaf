//! What the other side sends.
use super::{
    Cont, ContView, CoreView, FollowView, JamCore, Link, PlayerOp, PlayerOpView, Purpose,
    PurposeView, SharedView, Target, TargetView, WhoView,
};
use crate::clock::stamp_of;
use crate::json::{group_json_views, Json, JsonView};
use crate::messages::{pong, pong_json};
use crate::text::{option_view, same};
use crate::track::{
    clone_members, clone_tracks, members_from_json, members_of, move_track, moved, remove_uri,
    track_from_json, track_of, tracks_from_json, tracks_of, without_uri, Track, TrackView,
};
use vstd::prelude::*;

verus! {

/// A position in a message, in microseconds.
pub open spec fn position_at(v: JsonView, k: Seq<char>) -> Option<i64> {
    match v.scaled_at(k, 1000) {
        Some(n) => Some(n as i64),
        None => None,
    }
}

/// A position in a message; a missing one is the start.
pub open spec fn position_or_zero(v: JsonView, k: Seq<char>) -> i64 {
    match position_at(v, k) {
        Some(n) => n,
        None => 0,
    }
}

/// A position in a message, in microseconds.
fn read_position_at(v: &Json, k: &str) -> (r: Option<i64>)
    ensures
        r == position_at(v@, k@),
{
    v.scaled_at(k, 1000)
}

/// A position in a message; a missing one is the start.
fn read_position_or_zero(v: &Json, k: &str) -> (r: i64)
    ensures
        r == position_or_zero(v@, k@),
{
    match read_position_at(v, k) {
        Some(n) => n,
        None => 0,
    }
}

/// A truth value in a message; a missing one is false.
pub open spec fn flag(v: JsonView, k: Seq<char>) -> bool {
    v.bool_at(k) == Some(true)
}

/// A truth value in a message; a missing one is false.
fn read_flag(v: &Json, k: &str) -> (r: bool)
    ensures
        r == flag(v@, k@),
{
    match v.bool_at(k) {
        Some(b) => b,
        None => false,
    }
}

/// The song that a message's `np` describes.
pub open spec fn np_of(v: JsonView) -> Option<TrackView> {
    match v.get("np"@) {
        Some(np) => track_of(np),
        None => None,
    }
}

/// The song that a message's `np` describes.
fn read_np(v: &Json) -> (r: Option<Track>)
    ensures
        option_view(r) == np_of(v@),
{
    match v.get("np") {
        Some(np) => Track::from_np(np),
        None => None,
    }
}

/// Who adds a song.
pub open spec fn added_by(v: JsonView) -> Seq<char> {
    match v.get("addedBy"@) {
        Some(a) => a.text_or("name"@, "guest"@),
        None => "guest"@,
    }
}

/// Who adds a song.
fn read_added_by(v: &Json) -> (r: String)
    ensures
        r@ == added_by(v@),
{
    match v.get("addedBy") {
        Some(a) => a.str_or("name", "guest"),
        None => "guest".to_owned(),
    }
}

/// A place in the queue; a missing one is the first.
pub open spec fn place_at(v: JsonView, k: Seq<char>) -> u64 {
    match v.uint_at(k) {
        Some(n) => n,
        None => 0,
    }
}

/// A place in the queue, as far as one can be counted.
fn read_place(v: &Json, k: &str) -> (r: u64)
    ensures
        r == place_at(v@, k@),
{
    match v.uint_at(k) {
        Some(n) => n,
        None => 0,
    }
}

impl CoreView {
    /// When a message was sent; one that does not say so was sent now.
    pub open spec fn sent_at(self, n: JsonView) -> i64 {
        match n.int_at("ts"@) {
            Some(ts) => ts,
            None => stamp_of(self.clock),
        }
    }

    /// With what an `INIT` says of the host's song, which becomes the target.
    #[verifier::opaque]
    pub open spec fn song_introduced(self, n: JsonView) -> CoreView {
        let np = np_of(n);
        CoreView {
            follow: FollowView {
                target: match np {
                    Some(t) => Some(
                        TargetView {
                            uri: t.uri,
                            title: t.title,
                            artist: t.artist,
                            pos_us: position_or_zero(n, "progress"@),
                            at: self.now(),
                            playing: flag(n, "playing"@),
                        },
                    ),
                    None => self.follow.target,
                },
                ..self.follow
            },
            shared: SharedView {
                now_playing: match np {
                    Some(t) => Some(t),
                    None => self.shared.now_playing,
                },
                progress_us: match position_at(n, "progress"@) {
                    Some(p) => p,
                    None => self.shared.progress_us,
                },
                duration_us: match position_at(n, "duration"@) {
                    Some(d) => d,
                    None => self.shared.duration_us,
                },
                playing: match n.bool_at("playing"@) {
                    Some(p) => p,
                    None => self.shared.playing,
                },
                ..self.shared
            },
            ..self
        }
    }

    /// With what an `INIT` says of the host and its queue.
    #[verifier::opaque]
    pub open spec fn host_introduced(self, n: JsonView) -> CoreView {
        let host = n.text_or("host"@, "Host"@);
        let gc = flag(n, "gc"@);
        let q = match n.array_at("queue"@) {
            Some(a) => tracks_of(a),
            None => self.queue,
        };
        CoreView {
            who: WhoView { host_name: host, gc, ..self.who },
            queue: q,
            shared: SharedView {
                host_name: host,
                gc,
                queue: q,
                connected: true,
                ..self.shared
            },
            ..self
        }.logged(
            "in a Jam with “"@ + host + "”"@ + if gc {
                " (guest controls on)"@
            } else {
                ""@
            },
        )
    }

    /// `INIT`: the host introduces itself, its queue and its song.
    #[verifier::opaque]
    pub open spec fn introduced(self, n: JsonView) -> CoreView {
        self.song_introduced(n).host_introduced(n)
    }

    /// `PLAY`: the host's song.
    #[verifier::opaque]
    pub open spec fn play_received(self, n: JsonView) -> CoreView {
        self.applied(
            n.text_or("uri"@, ""@),
            position_or_zero(n, "pos"@),
            self.sent_at(n),
            flag(n, "paused"@),
            np_of(n),
            false,
        )
    }

    /// `PAUSE`: the host has paused.
    #[verifier::opaque]
    pub open spec fn pause_received(self) -> CoreView {
        let c = CoreView {
            follow: FollowView {
                target: match self.follow.target {
                    Some(t) => Some(TargetView { playing: false, ..t }),
                    None => None,
                },
                ..self.follow
            },
            ..self
        }.told(PlayerOpView::Pause);
        CoreView { shared: SharedView { playing: false, ..c.shared }, ..c }
    }

    /// `PS`: whether the host plays, and where.
    #[verifier::opaque]
    pub open spec fn play_state_received(self, n: JsonView) -> CoreView {
        match (n.bool_at("p"@), position_at(n, "pos"@)) {
            (Some(p), Some(pos)) => CoreView {
                follow: FollowView {
                    target: Some(
                        match self.follow.target {
                            Some(t) => TargetView {
                                pos_us: pos,
                                at: self.now(),
                                playing: p,
                                ..t
                            },
                            None => TargetView {
                                uri: Seq::empty(),
                                title: Seq::empty(),
                                artist: Seq::empty(),
                                pos_us: pos,
                                at: self.now(),
                                playing: p,
                            },
                        },
                    ),
                    ..self.follow
                },
                shared: SharedView { playing: p, progress_us: pos, ..self.shared },
                ..self
            },
            _ => self,
        }
    }

    /// `SYNC_TICK`: a position to measure drift by.
    #[verifier::opaque]
    pub open spec fn tick_received(self, n: JsonView) -> CoreView {
        self.drift_asked(
            position_or_zero(n, "pos"@),
            self.sent_at(n),
        )
    }

    /// `PONG`: the ping is the time since the echoed timestamp.
    #[verifier::opaque]
    pub open spec fn pong_received(self, n: JsonView) -> CoreView {
        match n.int_at("ts"@) {
            Some(ts) => {
                let ping = stamp_of(self.clock).wrapping_sub(ts);
                CoreView {
                    link: Link { ping_ms: ping, ..self.link },
                    shared: SharedView { ping_ms: ping, ..self.shared },
                    ..self
                }
            },
            None => self,
        }
    }

    /// `MEMBERS`: the listeners.
    #[verifier::opaque]
    pub open spec fn members_received(self, n: JsonView) -> CoreView {
        match n.array_at("members"@) {
            Some(a) => CoreView {
                who: WhoView { members: members_of(a), ..self.who },
                shared: SharedView { members: members_of(a), ..self.shared },
                ..self
            },
            None => self,
        }
    }

    /// `GCTRL`: whether guests may control playback.
    #[verifier::opaque]
    pub open spec fn permission_received(self, n: JsonView) -> CoreView {
        let gc = flag(n, "on"@);
        CoreView {
            who: WhoView { gc, ..self.who },
            shared: SharedView { gc, ..self.shared },
            ..self
        }.logged(
            "guest controls "@ + if gc {
                "enabled"@
            } else {
                "disabled"@
            },
        )
    }

    /// `Q`: the queue.
    #[verifier::opaque]
    pub open spec fn queue_received(self, n: JsonView) -> CoreView {
        match n.array_at("queue"@) {
            Some(a) => CoreView {
                queue: tracks_of(a),
                shared: SharedView { queue: tracks_of(a), ..self.shared },
                ..self
            },
            None => self,
        }
    }

    /// `KICK`: the host has removed the guest.
    #[verifier::opaque]
    pub open spec fn kicked(self) -> CoreView {
        self.logged("removed from the Jam by the host :c"@).left()
    }

    /// `JOIN`: a guest introduces itself.
    #[verifier::opaque]
    pub open spec fn join_received(self, n: JsonView) -> CoreView {
        let name = n.text_or("name"@, "Listener"@);
        CoreView { who: WhoView { guest_name: name, ..self.who }, ..self }.asked(
            ContView::Join { name },
        )
    }

    /// `PING`: the timestamp is echoed.
    #[verifier::opaque]
    pub open spec fn ping_received(self, n: JsonView) -> CoreView {
        match n.int_at("ts"@) {
            Some(ts) => self.sent(pong_json(ts as int)),
            None => self,
        }
    }

    /// `ADD_Q`: a guest adds a song, where guests may control playback.
    #[verifier::opaque]
    pub open spec fn add_received(self, n: JsonView) -> CoreView {
        match track_of(n) {
            Some(t) if self.who.gc => self.looked_up(t, PurposeView::Queue(added_by(n))),
            _ => self,
        }
    }

    /// `RM_Q`: a guest takes a song out of the queue.
    #[verifier::opaque]
    pub open spec fn remove_received(self, n: JsonView) -> CoreView {
        match n.text_at("uri"@) {
            Some(uri) => self.requeued(without_uri(self.queue, uri)),
            None => self,
        }
    }

    /// `MOVE_Q`: a guest moves a song within the queue.
    #[verifier::opaque]
    pub open spec fn move_received(self, n: JsonView) -> CoreView {
        let from = place_at(n, "from"@);
        if from < self.queue.len() {
            self.requeued(moved(self.queue, from as int, place_at(n, "to"@) as int))
        } else {
            self
        }
    }

    /// `CMD`: a guest controls playback, where that is allowed.
    #[verifier::opaque]
    pub open spec fn command_received(self, n: JsonView) -> CoreView {
        if !self.who.gc {
            self
        } else {
            let a = n.text_or("a"@, ""@);
            let c = self.logged("cmd from "@ + self.who.guest_name + ": "@ + a);
            if self.dry_run {
                c
            } else if a == "play"@ {
                c.told(PlayerOpView::Play)
            } else if a == "pause"@ {
                c.told(PlayerOpView::Pause)
            } else if a == "seek"@ {
                match position_at(n, "pos"@) {
                    Some(pos) => c.told(PlayerOpView::Seek(pos)),
                    None => c,
                }
            } else if a == "playuri"@ {
                match n.text_at("uri"@) {
                    Some(uri) => c.looked_up(
                        TrackView {
                            uri,
                            title: Seq::empty(),
                            artist: Seq::empty(),
                            art_url: Seq::empty(),
                        },
                        PurposeView::Play,
                    ),
                    None => c,
                }
            } else if a == "next"@ {
                c.skipped()
            } else {
                c
            }
        }
    }

    /// With a message of the other side dealt with. What only a host deals with, a guest passes
    /// over.
    pub open spec fn jam_received(self, n: JsonView) -> CoreView {
        let kind = n.text_or("type"@, ""@);
        if kind == "INIT"@ {
            self.introduced(n)
        } else if kind == "PLAY"@ {
            self.play_received(n)
        } else if kind == "PAUSE"@ {
            self.pause_received()
        } else if kind == "PS"@ {
            self.play_state_received(n)
        } else if kind == "SEEK"@ {
            self.sought(position_or_zero(n, "pos"@), self.sent_at(n))
        } else if kind == "SYNC_TICK"@ {
            self.tick_received(n)
        } else if kind == "PONG"@ {
            self.pong_received(n)
        } else if kind == "MEMBERS"@ {
            self.members_received(n)
        } else if kind == "GCTRL"@ {
            self.permission_received(n)
        } else if kind == "Q"@ {
            self.queue_received(n)
        } else if kind == "KICK"@ {
            self.kicked()
        } else if kind == "PING"@ {
            self.ping_received(n)
        } else if self.who.is_host {
            self.request_received(kind, n)
        } else {
            self
        }
    }

    /// Host: with a guest's request dealt with.
    pub open spec fn request_received(self, kind: Seq<char>, n: JsonView) -> CoreView {
        if kind == "JOIN"@ {
            self.join_received(n)
        } else if kind == "SYNC"@ {
            self.asked(ContView::Sync)
        } else if kind == "ADD_Q"@ {
            self.add_received(n)
        } else if kind == "RM_Q"@ {
            self.remove_received(n)
        } else if kind == "MOVE_Q"@ {
            self.move_received(n)
        } else if kind == "CMD"@ {
            self.command_received(n)
        } else {
            self
        }
    }
}

impl JamCore {
    /// When a message was sent.
    fn read_sent_at(&self, n: &Json) -> (r: i64)
        ensures
            r == self@.sent_at(n@),
    {
        match n.int_at("ts") {
            Some(ts) => ts,
            None => self.clock.now_ms(),
        }
    }

    /// Takes in what an `INIT` says of the host's song.
    fn take_song(&mut self, n: &Json)
        ensures
            final(self)@ == old(self)@.song_introduced(n@),
    {
        proof {
            reveal(CoreView::song_introduced);
        }
        if let Some(t) = read_np(n) {
            self.follow.target = Some(
                Target {
                    uri: t.uri.clone(),
                    title: t.title.clone(),
                    artist: t.artist.clone(),
                    pos_us: read_position_or_zero(n, "progress"),
                    at: self.clock.steady_ns,
                    playing: read_flag(n, "playing"),
                },
            );
            self.shared.now_playing = Some(t);
        }
        if let Some(p) = read_position_at(n, "progress") {
            self.shared.progress_us = p;
        }
        if let Some(d) = read_position_at(n, "duration") {
            self.shared.duration_us = d;
        }
        if let Some(p) = n.bool_at("playing") {
            self.shared.playing = p;
        }
    }

    /// Takes in what an `INIT` says of the host and its queue.
    fn take_host(&mut self, n: &Json)
        ensures
            final(self)@ == old(self)@.host_introduced(n@),
    {
        proof {
            broadcast use group_json_views;

            reveal(CoreView::host_introduced);
        }
        let host = n.str_or("host", "Host");
        let gc = read_flag(n, "gc");
        if let Some(a) = n.array_at("queue") {
            self.queue = tracks_from_json(a);
        }
        let mut m = "in a Jam with “".to_owned();
        m.append(host.as_str());
        m.append("”");
        m.append(if gc { " (guest controls on)" } else { "" });
        self.shared.host_name = host.clone();
        self.who.host_name = host;
        self.who.gc = gc;
        self.shared.gc = gc;
        self.shared.queue = clone_tracks(&self.queue);
        self.shared.connected = true;
        self.log(m.as_str());
    }

    /// `INIT`.
    fn take_init(&mut self, n: &Json)
        ensures
            final(self)@ == old(self)@.introduced(n@),
    {
        proof {
            reveal(CoreView::introduced);
        }
        self.take_song(n);
        self.take_host(n);
    }

    /// `PLAY`.
    fn take_play(&mut self, n: &Json)
        ensures
            final(self)@ == old(self)@.play_received(n@),
    {
        proof {
            reveal(CoreView::play_received);
        }
        let uri = n.str_or("uri", "");
        self.apply_playback(
            uri.as_str(),
            read_position_or_zero(n, "pos"),
            self.read_sent_at(n),
            read_flag(n, "paused"),
            read_np(n),
            false,
        );
    }

    /// `PAUSE`.
    fn take_pause(&mut self)
        ensures
            final(self)@ == old(self)@.pause_received(),
    {
        proof {
            reveal(CoreView::pause_received);
        }
        let mut target: Option<Target> = None;
        std::mem::swap(&mut target, &mut self.follow.target);
        if let Some(mut t) = target {
            t.playing = false;
            self.follow.target = Some(t);
        }
        self.tell(PlayerOp::Pause);
        self.shared.playing = false;
    }

    /// `PS`.
    fn take_play_state(&mut self, n: &Json)
        ensures
            final(self)@ == old(self)@.play_state_received(n@),
    {
        proof {
            reveal(CoreView::play_state_received);
        }
        let p = match n.bool_at("p") {
            Some(p) => p,
            None => return,
        };
        let pos: i64 = match read_position_at(n, "pos") {
            Some(pos) => pos,
            None => return,
        };
        let (uri, title, artist) = match &self.follow.target {
            Some(t) => (t.uri.clone(), t.title.clone(), t.artist.clone()),
            None => (String::new(), String::new(), String::new()),
        };
        self.follow.target = Some(
            Target { uri, title, artist, pos_us: pos, at: self.clock.steady_ns, playing: p },
        );
        self.shared.playing = p;
        self.shared.progress_us = pos;
    }

    /// `SYNC_TICK`.
    fn take_tick(&mut self, n: &Json)
        ensures
            final(self)@ == old(self)@.tick_received(n@),
    {
        proof {
            reveal(CoreView::tick_received);
        }
        let ts: i64 = self.read_sent_at(n);
        self.drift_correct(read_position_or_zero(n, "pos"), ts);
    }

    /// `PONG`.
    fn take_pong(&mut self, n: &Json)
        ensures
            final(self)@ == old(self)@.pong_received(n@),
    {
        proof {
            reveal(CoreView::pong_received);
        }
        if let Some(ts) = n.int_at("ts") {
            let ping: i64 = self.clock.now_ms().wrapping_sub(ts);
            self.link.ping_ms = ping;
            self.shared.ping_ms = ping;
        }
    }

    /// `MEMBERS`.
    fn take_members(&mut self, n: &Json)
        ensures
            final(self)@ == old(self)@.members_received(n@),
    {
        proof {
            broadcast use group_json_views;

            reveal(CoreView::members_received);
        }
        if let Some(a) = n.array_at("members") {
            self.who.members = members_from_json(a);
            self.shared.members = clone_members(&self.who.members);
        }
    }

    /// `GCTRL`.
    fn take_permission(&mut self, n: &Json)
        ensures
            final(self)@ == old(self)@.permission_received(n@),
    {
        proof {
            reveal(CoreView::permission_received);
        }
        let gc = read_flag(n, "on");
        self.who.gc = gc;
        self.shared.gc = gc;
        let mut m = "guest controls ".to_owned();
        m.append(if gc { "enabled" } else { "disabled" });
        self.log(m.as_str());
    }

    /// `Q`.
    fn take_queue(&mut self, n: &Json)
        ensures
            final(self)@ == old(self)@.queue_received(n@),
    {
        proof {
            broadcast use group_json_views;

            reveal(CoreView::queue_received);
        }
        if let Some(a) = n.array_at("queue") {
            self.queue = tracks_from_json(a);
            self.shared.queue = clone_tracks(&self.queue);
        }
    }

    /// `KICK`.
    fn take_kick(&mut self)
        ensures
            final(self)@ == old(self)@.kicked(),
    {
        proof {
            reveal(CoreView::kicked);
        }
        self.log("removed from the Jam by the host :c");
        self.leave();
    }

    /// `JOIN`.
    fn take_join(&mut self, n: &Json)
        ensures
            final(self)@ == old(self)@.join_received(n@),
    {
        proof {
            reveal(CoreView::join_received);
        }
        let name = n.str_or("name", "Listener");
        self.who.guest_name = name.clone();
        self.ask(Cont::Join { name });
    }

    /// `PING`.
    fn take_ping(&mut self, n: &Json)
        ensures
            final(self)@ == old(self)@.ping_received(n@),
    {
        proof {
            reveal(CoreView::ping_received);
        }
        if let Some(ts) = n.int_at("ts") {
            self.send(pong(ts));
        }
    }

    /// `ADD_Q`.
    fn take_add(&mut self, n: &Json)
        ensures
            final(self)@ == old(self)@.add_received(n@),
    {
        proof {
            reveal(CoreView::add_received);
        }
        if !self.who.gc {
            return;
        }
        if let Some(t) = track_from_json(n) {
            let who = read_added_by(n);
            self.resolve_track_meta(t, Purpose::Queue(who));
        }
    }

    /// `RM_Q`.
    fn take_remove(&mut self, n: &Json)
        ensures
            final(self)@ == old(self)@.remove_received(n@),
    {
        proof {
            reveal(CoreView::remove_received);
        }
        if let Some(uri) = n.str_at("uri") {
            let q = remove_uri(&self.queue, uri);
            self.set_queue(q);
        }
    }

    /// `MOVE_Q`.
    fn take_move(&mut self, n: &Json)
        ensures
            final(self)@ == old(self)@.move_received(n@),
    {
        proof {
            reveal(CoreView::move_received);
        }
        let from: u64 = read_place(n, "from");
        let to: u64 = read_place(n, "to");
        let len: usize = self.queue.len();
        if from < len as u64 {
            let mut q = clone_tracks(&self.queue);
            let to: usize = if to < len as u64 {
                to as usize
            } else {
                len
            };
            move_track(&mut q, from as usize, to);
            self.set_queue(q);
        }
    }

    /// `CMD`.
    fn take_command(&mut self, n: &Json)
        ensures
            final(self)@ == old(self)@.command_received(n@),
    {
        proof {
            reveal(CoreView::command_received);
        }
        if !self.who.gc {
            return;
        }
        let a = n.str_or("a", "");
        let mut m = "cmd from ".to_owned();
        m.append(self.who.guest_name.as_str());
        m.append(": ");
        m.append(a.as_str());
        self.log(m.as_str());
        if self.dry_run {
            return;
        }
        if same(a.as_str(), "play") {
            self.tell(PlayerOp::Play);
        } else if same(a.as_str(), "pause") {
            self.tell(PlayerOp::Pause);
        } else if same(a.as_str(), "seek") {
            if let Some(pos) = read_position_at(n, "pos") {
                self.tell(PlayerOp::Seek(pos));
            }
        } else if same(a.as_str(), "playuri") {
            if let Some(uri) = n.str_at("uri") {
                let t = Track {
                    uri: uri.to_owned(),
                    title: String::new(),
                    artist: String::new(),
                    art_url: String::new(),
                };
                self.resolve_track_meta(t, Purpose::Play);
            }
        } else if same(a.as_str(), "next") {
            self.host_next();
        }
    }

    /// Deals with a message of the other side.
    pub fn handle_jam(&mut self, n: &Json)
        ensures
            final(self)@ == old(self)@.jam_received(n@),
    {
        let kind = n.str_or("type", "");
        let k = kind.as_str();
        if same(k, "INIT") {
            self.take_init(n);
        } else if same(k, "PLAY") {
            self.take_play(n);
        } else if same(k, "PAUSE") {
            self.take_pause();
        } else if same(k, "PS") {
            self.take_play_state(n);
        } else if same(k, "SEEK") {
            self.seek(read_position_or_zero(n, "pos"), self.read_sent_at(n));
        } else if same(k, "SYNC_TICK") {
            self.take_tick(n);
        } else if same(k, "PONG") {
            self.take_pong(n);
        } else if same(k, "MEMBERS") {
            self.take_members(n);
        } else if same(k, "GCTRL") {
            self.take_permission(n);
        } else if same(k, "Q") {
            self.take_queue(n);
        } else if same(k, "KICK") {
            self.take_kick();
        } else if same(k, "PING") {
            self.take_ping(n);
        } else if self.who.is_host {
            self.handle_request(k, n);
        }
    }

    /// Host: deals with a guest's request.
    fn handle_request(&mut self, k: &str, n: &Json)
        ensures
            final(self)@ == old(self)@.request_received(k@, n@),
    {
        if same(k, "JOIN") {
            self.take_join(n);
        } else if same(k, "SYNC") {
            self.ask(Cont::Sync);
        } else if same(k, "ADD_Q") {
            self.take_add(n);
        } else if same(k, "RM_Q") {
            self.take_remove(n);
        } else if same(k, "MOVE_Q") {
            self.take_move(n);
        } else if same(k, "CMD") {
            self.take_command(n);
        }
    }
}

} // verus!
