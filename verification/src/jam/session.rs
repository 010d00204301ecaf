//! Beginning and ending sessions, and what the user asks for.
use super::sync::ms_text;
use super::sync::whole_ms;
use super::{
    Cont, ContView, CoreView, Drawn, DrawnView, Drift, FollowView, JamCore, Link, Mode, PlayerOp,
    PlayerOpView, SharedView, UiCmd, UiCmdView, WatchView, WhoView, NO_PING,
};
use crate::clock::{later, SECOND};
use crate::messages::{
    add_to_queue, add_to_queue_json, bare, command, command_json, guest_controls,
    guest_controls_json, typed,
};
use crate::player::{PlayerState, PlayerStateView};
use crate::text::{alnum, chars_of, dec, is_alnum, is_empty, option_view};
use crate::track::{member_views, track_views};
use vstd::prelude::*;

verus! {

/// The letters and digits of a text.
pub open spec fn alnums(s: Seq<char>) -> Seq<char>
    decreases s.len(),
{
    if s.len() == 0 {
        Seq::empty()
    } else if alnum(s.last()) {
        alnums(s.drop_last()).push(s.last())
    } else {
        alnums(s.drop_last())
    }
}

/// The code that a host's wish comes to: the letters and digits among its first eight
/// characters.
pub open spec fn wished_code(s: Seq<char>) -> Seq<char> {
    alnums(
        if s.len() > 8 {
            s.take(8)
        } else {
            s
        },
    )
}

/// The code that a host's wish comes to.
pub fn sanitize_code(s: &str) -> (r: String)
    ensures
        r@ == wished_code(s@),
{
    let v = chars_of(s);
    let len: usize = v.len();
    let n: usize = if len > 8 {
        8
    } else {
        len
    };
    let mut r = String::new();
    let mut i: usize = 0;
    let ghost w = s@.take(n as int);
    assert(w.take(0) =~= Seq::empty());
    while i < n
        invariant
            n <= v@.len(),
            v@ == s@,
            w == s@.take(n as int),
            i <= n,
            r@ == alnums(w.take(i as int)),
        decreases n - i,
    {
        assert(w.take(i as int + 1).drop_last() =~= w.take(i as int));
        let c = v[i];
        if is_alnum(c) {
            r.push(c);
        }
        i = i + 1;
    }
    assert(w.take(n as int) =~= w);
    assert(len <= 8 ==> w =~= s@);
    r
}

/// A bound that is not below zero.
pub open spec fn at_least_zero(n: i64) -> u64 {
    if n < 0 {
        0
    } else {
        n as u64
    }
}

impl CoreView {
    /// With what the player is doing taken over. The host watches it from there; a guest in a
    /// session goes on showing the host's song.
    #[verifier::opaque]
    pub open spec fn adopted(self, st: Option<PlayerStateView>) -> CoreView {
        match st {
            Some(s) => {
                let c = CoreView {
                    pos: self.pos.anchored(self.now(), s.position_us),
                    watch: if self.who.is_host {
                        WatchView { last_uri: Some(s.uri), last_playing: Some(s.playing) }
                    } else {
                        self.watch
                    },
                    ..self
                };
                if self.who.is_host || self.follow.target is None {
                    CoreView {
                        shared: SharedView {
                            now_playing: if s.known() {
                                Some(s.track())
                            } else {
                                None
                            },
                            playing: s.playing,
                            progress_us: s.position_us,
                            duration_us: s.duration_us,
                            ..c.shared
                        },
                        ..c
                    }
                } else {
                    c
                }
            },
            None => self,
        }
    }

    /// With the first look at the player shown.
    #[verifier::opaque]
    pub open spec fn booted(self, st: Option<PlayerStateView>) -> CoreView {
        match st {
            Some(s) => CoreView {
                shared: SharedView {
                    now_playing: Some(s.track()),
                    playing: s.playing,
                    progress_us: s.position_us,
                    duration_us: s.duration_us,
                    backend: self.player,
                    ..self.shared
                },
                ..self
            },
            None => self,
        }
    }

    /// With the local song marked as no pick of the guest's, and five seconds to settle.
    #[verifier::opaque]
    pub open spec fn based(self, st: Option<PlayerStateView>) -> CoreView {
        CoreView {
            follow: FollowView {
                join_baseline: match st {
                    Some(s) => Some(s.key()),
                    None => None,
                },
                last_local: None,
                settle_until: Some(later(self.now(), (5 * SECOND) as u64)),
                ..self.follow
            },
            ..self
        }
    }

    /// With a new session begun, as host or as guest.
    #[verifier::opaque]
    pub open spec fn session_started(
        self,
        host: bool,
        code: Seq<char>,
        name: Seq<char>,
        d: DrawnView,
    ) -> CoreView {
        let c = self.left_quietly();
        let e = CoreView {
            who: WhoView {
                is_host: host,
                members: Seq::empty(),
                host_name: Seq::empty(),
                guest_name: Seq::empty(),
                ..c.who
            },
            link: Link { reconnects: 0, ping_ms: NO_PING, ..c.link },
            queue: Seq::empty(),
            follow: FollowView {
                target: None,
                pending: None,
                join_baseline: None,
                last_local: None,
                settle_until: None,
                ..c.follow
            },
            ..c
        };
        if host {
            e.session_named(code, name, d)
        } else {
            e.asked(ContView::SessionBaseline { code, name })
        }
    }

    /// With an id for this peer: the host's is the code of the Jam, as wished or drawn, and the
    /// guest's is drawn.
    #[verifier::opaque]
    pub open spec fn session_named(
        self,
        code: Seq<char>,
        name: Seq<char>,
        d: DrawnView,
    ) -> CoreView {
        let host = self.who.is_host;
        let id = if !host {
            d.uuid
        } else if wished_code(code).len() == 0 {
            d.code
        } else {
            wished_code(code)
        };
        CoreView {
            who: WhoView { jam_id: id, ..self.who },
            shared: SharedView {
                mode: Mode::Joining,
                error: None,
                jam_id: if host {
                    id
                } else {
                    code
                },
                display_name: name,
                gc: self.who.gc,
                backend: self.player,
                members: Seq::empty(),
                ..self.shared
            },
            ..self
        }.asked(ContView::SessionConnect { code })
    }

    /// With the signaling server connected, or not.
    #[verifier::opaque]
    pub open spec fn session_connected(
        self,
        code: Seq<char>,
        r: Result<(), Seq<char>>,
    ) -> CoreView {
        let host = self.who.is_host;
        let c = match r {
            Ok(_) => CoreView { signaling: true, ..self }.logged(
                if host {
                    "starting Jam… (code "@ + self.who.jam_id + ")"@
                } else {
                    "connecting to Jam "@ + code + "…"@
                },
            ),
            Err(e) => CoreView {
                shared: SharedView {
                    error: Some("signaling failed: "@ + e),
                    mode: Mode::Idle,
                    ..self.shared
                },
                ..self
            },
        };
        CoreView {
            who: WhoView {
                target_code: if host {
                    None
                } else {
                    Some(code)
                },
                ..c.who
            },
            link: Link {
                joining_since: if host {
                    None
                } else {
                    Some(self.now())
                },
                ..c.link
            },
            watch: WatchView { last_uri: None, last_playing: None },
            pos: c.pos.forgotten(),
            ..c
        }.asked(ContView::SessionAdopt)
    }

    /// With the session left: nothing is connected any more, nor will be again by itself.
    #[verifier::opaque]
    pub open spec fn left(self) -> CoreView {
        let c = self.left_quietly();
        CoreView {
            link: Link { reconnect_at: None, ..c.link },
            shared: SharedView {
                mode: Mode::Idle,
                connected: false,
                members: Seq::empty(),
                queue: Seq::empty(),
                now_playing: None,
                ping_ms: NO_PING,
                ..c.shared
            },
            ..c
        }.logged("left the Jam"@)
    }

    /// With another player in use, or not.
    #[verifier::opaque]
    pub open spec fn swapped(self, r: Result<Seq<char>, Seq<char>>) -> CoreView {
        match r {
            Ok(name) => CoreView {
                player: name,
                pos: self.pos.forgotten(),
                watch: WatchView { last_uri: None, last_playing: None },
                follow: FollowView { pending: None, ..self.follow },
                own_queue: None,
                shared: SharedView { backend: name, ..self.shared },
                ..self
            }.logged("switched player → "@ + name).asked(ContView::SwapAdopt),
            Err(e) => self.logged("player switch failed: "@ + e),
        }
    }

    /// With the new player's doings taken over; a guest in a session looks at it again, and so
    /// does a host.
    #[verifier::opaque]
    pub open spec fn swap_adopted(self, st: Option<PlayerStateView>) -> CoreView {
        let c = self.adopted(st);
        if self.who.is_host {
            c.asked(ContView::SwapTell)
        } else if self.follow.target is Some {
            c.asked(ContView::SwapBaseline)
        } else {
            c
        }
    }

    /// With the new player's song marked as no pick of the guest's.
    #[verifier::opaque]
    pub open spec fn swap_based(self, st: Option<PlayerStateView>) -> CoreView {
        self.based(st).logged("syncing the new player to the host's song…"@)
    }

    /// With the guest told what the new player is doing.
    #[verifier::opaque]
    pub open spec fn swap_told(self, st: Option<PlayerStateView>) -> CoreView {
        match st {
            Some(s) if s.uri.len() > 0 => self.broadcast(s),
            _ => self,
        }
    }

    /// With the drift correction tuned. The jump threshold is not below the deadband.
    #[verifier::opaque]
    pub open spec fn tuned(self, enabled: bool, deadband_us: i64, jump_us: i64) -> CoreView {
        let deadband = at_least_zero(deadband_us);
        let jump = if at_least_zero(jump_us) > deadband {
            at_least_zero(jump_us)
        } else {
            deadband
        };
        CoreView {
            drift: Drift { ema: 0, count: 0, deadband, jump, enabled },
            shared: SharedView {
                drift_enabled: enabled,
                drift_deadband_us: deadband,
                drift_jump_us: jump,
                ..self.shared
            },
            ..self
        }.logged(
            "drift correction: "@ + if enabled {
                "on"@
            } else {
                "manual only"@
            } + " (deadband "@ + dec(whole_ms(deadband_us as int)) + "ms, jump "@ + dec(
                whole_ms(jump_us as int),
            ) + "ms)"@,
        )
    }

    /// With playback controlled: by the host itself, or by a command to the host where guests
    /// may control playback.
    #[verifier::opaque]
    pub open spec fn controlled(self, op: PlayerOpView, a: Seq<char>) -> CoreView {
        if self.who.is_host {
            self.told(op)
        } else if self.who.gc {
            self.sent(command_json(a))
        } else {
            self
        }
    }

    /// With the next song: played by the host, or asked of the host where guests may control
    /// playback.
    #[verifier::opaque]
    pub open spec fn advanced(self) -> CoreView {
        if self.who.is_host {
            self.skipped()
        } else if self.who.gc {
            self.sent(command_json("next"@))
        } else {
            self
        }
    }

    /// Host: with guests allowed to control playback, or not.
    #[verifier::opaque]
    pub open spec fn permitted(self, v: bool) -> CoreView {
        if self.who.is_host {
            let c = CoreView { who: WhoView { gc: v, ..self.who }, ..self }.sent(
                guest_controls_json(v),
            );
            CoreView { shared: SharedView { gc: v, ..c.shared }, ..c }.logged(
                "guest controls "@ + if v {
                    "enabled"@
                } else {
                    "disabled"@
                } + " — broadcast to guests"@,
            )
        } else {
            self
        }
    }

    /// Guest: with the host asked for its song.
    #[verifier::opaque]
    pub open spec fn sync_requested(self) -> CoreView {
        if self.who.is_host {
            self
        } else {
            CoreView {
                follow: FollowView { last_sync_req: Some(self.now()), ..self.follow },
                ..self
            }.sent(typed("SYNC"@)).logged("requesting sync…"@)
        }
    }

    /// Guest: with a song sent to the host's queue.
    #[verifier::opaque]
    pub open spec fn song_added(self, uri: Seq<char>) -> CoreView {
        if self.who.is_host {
            self
        } else {
            self.sent(add_to_queue_json(self.shared.display_name, uri)).logged(
                "sent song to the host's queue ♪"@,
            )
        }
    }

    /// With a Jam hosted, where guests may control playback, or not.
    #[verifier::opaque]
    pub open spec fn hosted(
        self,
        name: Seq<char>,
        gc: bool,
        code: Option<Seq<char>>,
        d: DrawnView,
    ) -> CoreView {
        CoreView { who: WhoView { gc, ..self.who }, ..self }.session_started(
            true,
            match code {
                Some(code) => code,
                None => Seq::empty(),
            },
            name,
            d,
        )
    }

    /// With what the user wants done.
    pub open spec fn commanded(self, cmd: UiCmdView, d: DrawnView) -> CoreView {
        match cmd {
            UiCmdView::Join { code, name } => self.session_started(false, code, name, d),
            UiCmdView::Host { name, gc, code } => self.hosted(name, gc, code, d),
            UiCmdView::SetBackend(backend) => self.asked(ContView::Swap { backend }),
            UiCmdView::SetDrift { enabled, deadband_us, jump_us } => self.tuned(
                enabled,
                deadband_us,
                jump_us,
            ),
            UiCmdView::SetGc(v) => self.permitted(v),
            UiCmdView::Leave => self.left(),
            UiCmdView::Play => self.controlled(PlayerOpView::Play, "play"@),
            UiCmdView::Pause => self.controlled(PlayerOpView::Pause, "pause"@),
            UiCmdView::Next => self.advanced(),
            UiCmdView::SyncNow => self.sync_requested(),
            UiCmdView::AddToQueue { uri } => self.song_added(uri),
        }
    }
}

impl JamCore {
    /// Takes over what the player is doing.
    pub(super) fn adopt_player_state(&mut self, st: Option<PlayerState>)
        ensures
            final(self)@ == old(self)@.adopted(option_view(st)),
    {
        proof {
            reveal(CoreView::adopted);
        }
        let guest_active = !self.who.is_host && self.follow.target.is_some();
        if let Some(s) = st {
            let clock = self.clock;
            self.pos.anchor(&clock, s.position_us);
            if self.who.is_host {
                self.watch.last_uri = Some(s.uri.clone());
                self.watch.last_playing = Some(s.playing);
            }
            if !guest_active {
                self.shared.now_playing =
                if s.known() {
                    Some(s.track())
                } else {
                    None
                };
                self.shared.playing = s.playing;
                self.shared.progress_us = s.position_us;
                self.shared.duration_us = s.duration_us;
            }
        }
    }

    /// Shows the first look at the player.
    pub(super) fn boot(&mut self, st: Option<PlayerState>)
        ensures
            final(self)@ == old(self)@.booted(option_view(st)),
    {
        proof {
            reveal(CoreView::booted);
        }
        if let Some(s) = st {
            self.shared.now_playing = Some(s.track());
            self.shared.playing = s.playing;
            self.shared.progress_us = s.position_us;
            self.shared.duration_us = s.duration_us;
            self.shared.backend = self.player.clone();
        }
    }

    /// Marks the local song as no pick of the guest's.
    fn set_baseline(&mut self, st: Option<PlayerState>)
        ensures
            final(self)@ == old(self)@.based(option_view(st)),
    {
        proof {
            reveal(CoreView::based);
        }
        self.follow.join_baseline =
        match st {
            Some(s) => Some(s.key()),
            None => None,
        };
        self.follow.last_local = None;
        self.follow.settle_until = Some(self.clock.after(5 * SECOND));
    }

    /// Begins a new session.
    pub(super) fn start_session(&mut self, host: bool, code: String, name: String, d: &Drawn)
        ensures
            final(self)@ == old(self)@.session_started(host, code@, name@, d@),
    {
        proof {
            reveal(CoreView::session_started);
        }
        self.leave_quiet();
        self.who.is_host = host;
        self.who.members = Vec::new();
        self.who.host_name = String::new();
        self.who.guest_name = String::new();
        self.link.reconnects = 0;
        self.link.ping_ms = NO_PING;
        self.queue = Vec::new();
        self.follow.target = None;
        self.follow.pending = None;
        self.follow.join_baseline = None;
        self.follow.last_local = None;
        self.follow.settle_until = None;
        assert(member_views(self.who.members@) =~= Seq::empty());
        assert(track_views(self.queue@) =~= Seq::empty());
        if host {
            self.name_session(code, name, d);
        } else {
            self.ask(Cont::SessionBaseline { code, name });
        }
    }

    /// Goes on with a guest's session once the local song is known.
    pub(super) fn base_session(
        &mut self,
        code: String,
        name: String,
        st: Option<PlayerState>,
        d: &Drawn,
    )
        ensures
            final(self)@ == old(self)@.based(option_view(st)).session_named(code@, name@, d@),
    {
        proof {
            reveal(CoreView::based);
            reveal(CoreView::session_named);
        }
        self.set_baseline(st);
        self.name_session(code, name, d);
    }

    /// Gives this peer an id.
    fn name_session(&mut self, code: String, name: String, d: &Drawn)
        ensures
            final(self)@ == old(self)@.session_named(code@, name@, d@),
    {
        proof {
            reveal(CoreView::session_named);
        }
        let host = self.who.is_host;
        let id = if !host {
            d.uuid.clone()
        } else {
            let wish = sanitize_code(code.as_str());
            if is_empty(wish.as_str()) {
                d.code.clone()
            } else {
                wish
            }
        };
        self.shared.mode = Mode::Joining;
        self.shared.error = None;
        self.shared.jam_id =
        if host {
            id.clone()
        } else {
            code.clone()
        };
        self.who.jam_id = id;
        self.shared.display_name = name;
        self.shared.gc = self.who.gc;
        self.shared.backend = self.player.clone();
        self.shared.members = Vec::new();
        assert(member_views(self.shared.members@) =~= Seq::empty());
        self.ask(Cont::SessionConnect { code });
    }

    /// Goes on once the signaling server is connected, or not.
    pub(super) fn connect_session(&mut self, code: String, r: Result<(), String>)
        ensures
            final(self)@ == old(self)@.session_connected(
                code@,
                match r {
                    Ok(_) => Ok(()),
                    Err(e) => Err(e@),
                },
            ),
    {
        proof {
            reveal(CoreView::session_connected);
        }
        let host = self.who.is_host;
        match r {
            Ok(_) => {
                self.signaling = true;
                if host {
                    let mut m = "starting Jam… (code ".to_owned();
                    m.append(self.who.jam_id.as_str());
                    m.append(")");
                    self.log(m.as_str());
                } else {
                    let mut m = "connecting to Jam ".to_owned();
                    m.append(code.as_str());
                    m.append("…");
                    self.log(m.as_str());
                }
            },
            Err(e) => {
                let mut m = "signaling failed: ".to_owned();
                m.append(e.as_str());
                self.shared.error = Some(m);
                self.shared.mode = Mode::Idle;
            },
        }
        if host {
            self.who.target_code = None;
            self.link.joining_since = None;
        } else {
            self.who.target_code = Some(code);
            self.link.joining_since = Some(self.clock.steady_ns);
        }
        self.watch.last_uri = None;
        self.watch.last_playing = None;
        self.pos.reset();
        self.ask(Cont::SessionAdopt);
    }

    /// Leaves the session.
    pub(super) fn leave(&mut self)
        ensures
            final(self)@ == old(self)@.left(),
    {
        proof {
            reveal(CoreView::left);
        }
        self.leave_quiet();
        self.link.reconnect_at = None;
        self.shared.mode = Mode::Idle;
        self.shared.connected = false;
        self.shared.members = Vec::new();
        self.shared.queue = Vec::new();
        self.shared.now_playing = None;
        self.shared.ping_ms = NO_PING;
        assert(member_views(self.shared.members@) =~= Seq::empty());
        assert(track_views(self.shared.queue@) =~= Seq::empty());
        self.log("left the Jam");
    }

    /// Goes on once another player is in use, or not.
    pub(super) fn swap_player(&mut self, r: Result<String, String>)
        ensures
            final(self)@ == old(self)@.swapped(
                match r {
                    Ok(name) => Ok(name@),
                    Err(e) => Err(e@),
                },
            ),
    {
        proof {
            reveal(CoreView::swapped);
        }
        match r {
            Ok(name) => {
                self.pos.reset();
                self.watch.last_uri = None;
                self.watch.last_playing = None;
                self.follow.pending = None;
                self.own_queue = None;
                self.shared.backend = name.clone();
                let mut m = "switched player → ".to_owned();
                m.append(name.as_str());
                self.player = name;
                self.log(m.as_str());
                self.ask(Cont::SwapAdopt);
            },
            Err(e) => {
                let mut m = "player switch failed: ".to_owned();
                m.append(e.as_str());
                self.log(m.as_str());
            },
        }
    }

    /// Takes over the new player's doings.
    pub(super) fn adopt_swapped(&mut self, st: Option<PlayerState>)
        ensures
            final(self)@ == old(self)@.swap_adopted(option_view(st)),
    {
        proof {
            reveal(CoreView::swap_adopted);
            reveal(CoreView::adopted);
        }
        self.adopt_player_state(st);
        if self.who.is_host {
            self.ask(Cont::SwapTell);
        } else if self.follow.target.is_some() {
            self.ask(Cont::SwapBaseline);
        }
    }

    /// Marks the new player's song as no pick of the guest's.
    pub(super) fn base_swapped(&mut self, st: Option<PlayerState>)
        ensures
            final(self)@ == old(self)@.swap_based(option_view(st)),
    {
        proof {
            reveal(CoreView::swap_based);
        }
        self.set_baseline(st);
        self.log("syncing the new player to the host's song…");
    }

    /// Tells the guest what the new player is doing.
    pub(super) fn tell_swapped(&mut self, st: Option<PlayerState>)
        ensures
            final(self)@ == old(self)@.swap_told(option_view(st)),
    {
        proof {
            reveal(CoreView::swap_told);
        }
        if let Some(s) = st {
            if !is_empty(s.uri.as_str()) {
                self.host_broadcast_play(&s);
            }
        }
    }

    /// Tunes the drift correction.
    fn set_drift(&mut self, enabled: bool, deadband_us: i64, jump_us: i64)
        ensures
            final(self)@ == old(self)@.tuned(enabled, deadband_us, jump_us),
    {
        proof {
            reveal(CoreView::tuned);
        }
        let deadband: u64 = if deadband_us < 0 {
            0
        } else {
            deadband_us as u64
        };
        let wish: u64 = if jump_us < 0 {
            0
        } else {
            jump_us as u64
        };
        let jump: u64 = if wish > deadband {
            wish
        } else {
            deadband
        };
        self.drift = Drift { ema: 0, count: 0, deadband, jump, enabled };
        self.shared.drift_enabled = enabled;
        self.shared.drift_deadband_us = deadband;
        self.shared.drift_jump_us = jump;
        let mut m = "drift correction: ".to_owned();
        m.append(if enabled { "on" } else { "manual only" });
        m.append(" (deadband ");
        m.append(ms_text(deadband_us).as_str());
        m.append("ms, jump ");
        m.append(ms_text(jump_us).as_str());
        m.append("ms)");
        self.log(m.as_str());
    }

    /// Controls playback.
    fn control(&mut self, op: PlayerOp, a: &str)
        ensures
            final(self)@ == old(self)@.controlled(op@, a@),
    {
        proof {
            reveal(CoreView::controlled);
        }
        if self.who.is_host {
            self.tell(op);
        } else if self.who.gc {
            self.send(command(a));
        }
    }

    /// Goes to the next song, or asks the host for it.
    fn advance(&mut self)
        ensures
            final(self)@ == old(self)@.advanced(),
    {
        proof {
            reveal(CoreView::advanced);
        }
        if self.who.is_host {
            self.host_next();
        } else if self.who.gc {
            self.send(command("next"));
        }
    }

    /// Host: allows guests to control playback, or not.
    fn set_gc(&mut self, v: bool)
        ensures
            final(self)@ == old(self)@.permitted(v),
    {
        proof {
            reveal(CoreView::permitted);
        }
        if self.who.is_host {
            self.who.gc = v;
            self.send(guest_controls(v));
            self.shared.gc = v;
            let mut m = "guest controls ".to_owned();
            m.append(if v { "enabled" } else { "disabled" });
            m.append(" — broadcast to guests");
            self.log(m.as_str());
        }
    }

    /// Guest: asks the host for its song.
    fn sync_now(&mut self)
        ensures
            final(self)@ == old(self)@.sync_requested(),
    {
        proof {
            reveal(CoreView::sync_requested);
        }
        if !self.who.is_host {
            self.follow.last_sync_req = Some(self.clock.steady_ns);
            self.send(bare("SYNC"));
            self.log("requesting sync…");
        }
    }

    /// Guest: sends a song to the host's queue.
    fn add_song(&mut self, uri: &str)
        ensures
            final(self)@ == old(self)@.song_added(uri@),
    {
        proof {
            reveal(CoreView::song_added);
        }
        if !self.who.is_host {
            let msg = add_to_queue(self.shared.display_name.as_str(), uri);
            self.send(msg);
            self.log("sent song to the host's queue ♪");
        }
    }

    /// Hosts a Jam.
    fn host_session(&mut self, name: String, gc: bool, code: Option<String>, d: &Drawn)
        ensures
            final(self)@ == old(self)@.hosted(name@, gc, option_view(code), d@),
    {
        proof {
            reveal(CoreView::hosted);
        }
        self.who.gc = gc;
        let code = match code {
            Some(code) => code,
            None => String::new(),
        };
        self.start_session(true, code, name, d);
    }

    /// Does what the user wants, with what was drawn at random.
    pub fn handle_cmd_with(&mut self, cmd: UiCmd, d: &Drawn)
        ensures
            final(self)@ == old(self)@.commanded(cmd@, d@),
    {
        match cmd {
            UiCmd::Join { code, name } => self.start_session(false, code, name, d),
            UiCmd::Host { name, gc, code } => self.host_session(name, gc, code, d),
            UiCmd::SetBackend(backend) => self.ask(Cont::Swap { backend }),
            UiCmd::SetDrift { enabled, deadband_us, jump_us } => self.set_drift(
                enabled,
                deadband_us,
                jump_us,
            ),
            UiCmd::SetGc(v) => self.set_gc(v),
            UiCmd::Leave => self.leave(),
            UiCmd::Play => self.control(PlayerOp::Play, "play"),
            UiCmd::Pause => self.control(PlayerOp::Pause, "pause"),
            UiCmd::Next => self.advance(),
            UiCmd::SyncNow => self.sync_now(),
            UiCmd::AddToQueue { uri } => self.add_song(uri.as_str()),
        }
    }

    /// Does what the user wants.
    pub fn handle_cmd(&mut self, cmd: UiCmd)
        ensures
            exists|d: DrawnView|
                d.wf() && final(self)@ == #[trigger] old(self)@.commanded(cmd@, d),
    {
        let d = Drawn::draw();
        self.handle_cmd_with(cmd, &d);
    }
}

} // verus!
