//! What is done as time passes.
use super::{
    Cont, ContView, CoreView, Drawn, DrawnView, FollowView, JamCore, Link, Mode, PendingSeek,
    PendingView, PlayerOp, PlayerOpView, SharedView, Timers,
};
use crate::clock::{passed, stamp_of, MILLI, SECOND};
use crate::messages::{bare, ping, ping_json, typed};
use crate::player::{PlayerState, PlayerStateView};
use crate::text::{is_empty, option_view, same};
use vstd::prelude::*;

verus! {

/// Whether the player has opened the song that a seek waits for: by uri, or by title where one
/// side has no uri.
pub open spec fn has_opened(p: PendingView, s: PlayerStateView) -> bool {
    if p.uri.len() == 0 || s.uri.len() == 0 {
        p.title.len() > 0 && s.title == p.title
    } else {
        s.uri == p.uri
    }
}

impl CoreView {
    /// Whether something that was last done at `at` is due again after `d` nanoseconds.
    pub open spec fn due(self, at: u64, d: int) -> bool {
        passed(self.now(), at) >= d
    }

    /// With an attempt to join given up after six seconds.
    #[verifier::opaque]
    pub open spec fn join_watched(self) -> CoreView {
        if self.shared.mode == Mode::Joining && (self.link.joining_since matches Some(since)
            && self.due(since, 6 * SECOND)) {
            let c = CoreView {
                link: Link { joining_since: None, ..self.link },
                ..self
            }.left_quietly();
            CoreView {
                shared: SharedView {
                    mode: Mode::Idle,
                    error: Some(
                        "Jam not found or unreachable — check the code and try again"@,
                    ),
                    ..c.shared
                },
                ..c
            }.logged("join timed out"@)
        } else {
            self
        }
    }

    /// With a reconnection begun where it is due.
    #[verifier::opaque]
    pub open spec fn reconnect_ticked(self, mode: Mode, d: DrawnView) -> CoreView {
        if self.link.reconnect_at matches Some(at) && self.now() >= at {
            CoreView { link: Link { reconnect_at: None, ..self.link }, ..self }.asked(
                ContView::Reconnect {
                    id: if self.who.is_host {
                        self.who.jam_id
                    } else {
                        d.uuid
                    },
                    mode,
                },
            )
        } else {
            self.pending_ticked(mode)
        }
    }

    /// With the signaling server connected again, or not.
    #[verifier::opaque]
    pub open spec fn reconnected(
        self,
        id: Seq<char>,
        mode: Mode,
        r: Result<(), Seq<char>>,
    ) -> CoreView {
        let c = match r {
            Ok(_) => CoreView { signaling: true, ..self }.logged(
                if self.who.is_host {
                    "re-registered Jam "@ + id
                } else {
                    "reconnecting to Jam "@ + match self.who.target_code {
                        Some(code) => code,
                        None => Seq::empty(),
                    } + "…"@
                },
            ),
            Err(_) => self,
        };
        c.pending_ticked(mode)
    }

    /// With a seek looked after that waits for its song; one whose song has been opened is over.
    #[verifier::opaque]
    pub open spec fn pending_ticked(self, mode: Mode) -> CoreView {
        match self.follow.pending {
            Some(p) => if p.opened {
                CoreView {
                    follow: FollowView { pending: None, ..self.follow },
                    ..self
                }.mode_ticked(mode)
            } else {
                self.asked(ContView::Pending { mode })
            },
            None => self.mode_ticked(mode),
        }
    }

    /// With a waiting seek made once its song has been opened, or once it is too late.
    #[verifier::opaque]
    pub open spec fn pending_made(self, st: Option<PlayerStateView>) -> CoreView {
        match (self.follow.pending, st) {
            (Some(p), Some(s)) => {
                let there = CoreView {
                    pos: self.pos.anchored(self.now(), p.target_us),
                    ..self
                }.told(PlayerOpView::Seek(p.target_us));
                if has_opened(p, s) {
                    let c = CoreView {
                        follow: FollowView {
                            pending: Some(PendingView { opened: true, ..p }),
                            ..there.follow
                        },
                        ..there
                    };
                    if p.paused {
                        c.told(PlayerOpView::Pause)
                    } else {
                        c
                    }
                } else if self.now() > p.deadline {
                    CoreView {
                        follow: FollowView { pending: None, ..there.follow },
                        ..there
                    }
                } else {
                    self
                }
            },
            _ => self,
        }
    }

    /// With the periodic work of a guest or a host done.
    #[verifier::opaque]
    pub open spec fn mode_ticked(self, mode: Mode) -> CoreView {
        match mode {
            Mode::Guest => self.ping_ticked().sync_ticked().lock_ticked(),
            Mode::Hosting => self.watch_ticked(),
            _ => self,
        }
    }

    /// Guest: with a ping sent every five seconds.
    #[verifier::opaque]
    pub open spec fn ping_ticked(self) -> CoreView {
        if self.due(self.timers.ping, 5 * SECOND) {
            CoreView {
                timers: Timers { ping: self.now(), ..self.timers },
                ..self
            }.sent(ping_json(stamp_of(self.clock) as int))
        } else {
            self
        }
    }

    /// Guest: with the host asked for its song every six seconds, unless the player was touched
    /// within three, or the host asked within five.
    #[verifier::opaque]
    pub open spec fn sync_ticked(self) -> CoreView {
        if self.due(self.timers.sync, 6 * SECOND) {
            let c = CoreView { timers: Timers { sync: self.now(), ..self.timers }, ..self };
            if (self.follow.last_applied matches Some(at) ==> self.due(at, 3 * SECOND)) && (
            self.follow.last_sync_req matches Some(at) ==> self.due(at, 5 * SECOND)) {
                CoreView {
                    follow: FollowView { last_sync_req: Some(self.now()), ..c.follow },
                    ..c
                }.sent(typed("SYNC"@))
            } else {
                c
            }
        } else {
            self
        }
    }

    /// Guest: with the player held to the host's song every two seconds, and the progress shown.
    #[verifier::opaque]
    pub open spec fn lock_ticked(self) -> CoreView {
        if self.due(self.timers.lock, 2 * SECOND) {
            let c = CoreView { timers: Timers { lock: self.now(), ..self.timers }, ..self };
            if self.follow.target matches Some(t) && t.known() {
                c.asked(ContView::Lock)
            } else {
                c.progressed()
            }
        } else {
            self.progressed()
        }
    }

    /// Host: with the player watched every 300 ms.
    #[verifier::opaque]
    pub open spec fn watch_ticked(self) -> CoreView {
        if self.due(self.timers.watch, 300 * MILLI) {
            CoreView { timers: Timers { watch: self.now(), ..self.timers }, ..self }.asked(
                ContView::Watch,
            )
        } else {
            self.position_ticked()
        }
    }

    /// Host: with the player watched, and the rest of the periodic work done.
    #[verifier::opaque]
    pub open spec fn watch_done(self, st: Option<PlayerStateView>) -> CoreView {
        match st {
            Some(s) => self.watched(s),
            None => self,
        }.position_ticked()
    }

    /// Host: with the position sent every five seconds.
    #[verifier::opaque]
    pub open spec fn position_ticked(self) -> CoreView {
        if self.due(self.timers.tick, 5 * SECOND) {
            CoreView { timers: Timers { tick: self.now(), ..self.timers }, ..self }.asked(
                ContView::Tick,
            )
        } else {
            self.pause_ticked()
        }
    }

    /// Host: with a pause asserted again every two seconds, while a guest is there.
    #[verifier::opaque]
    pub open spec fn pause_ticked(self) -> CoreView {
        if self.due(self.timers.pause, 2 * SECOND) {
            let c = CoreView { timers: Timers { pause: self.now(), ..self.timers }, ..self };
            if self.channel() {
                c.asked(ContView::PauseCheck)
            } else {
                c
            }
        } else {
            self
        }
    }

    /// With the periodic work done.
    pub open spec fn ticked(self, d: DrawnView) -> CoreView {
        self.join_watched().reconnect_ticked(self.shared.mode, d)
    }
}

impl JamCore {
    /// Whether something that was last done at `at` is due again after `d` nanoseconds.
    fn is_due(&self, at: u64, d: u64) -> (r: bool)
        ensures
            r == self@.due(at, d as int),
    {
        self.clock.since(at) >= d
    }

    /// Gives up an attempt to join after six seconds.
    fn watch_join(&mut self)
        ensures
            final(self)@ == old(self)@.join_watched(),
    {
        proof {
            reveal(CoreView::join_watched);
        }
        if self.shared.mode != Mode::Joining {
            return;
        }
        let late = match self.link.joining_since {
            Some(since) => self.is_due(since, 6 * SECOND),
            None => false,
        };
        if late {
            self.link.joining_since = None;
            self.leave_quiet();
            self.shared.mode = Mode::Idle;
            self.shared.error = Some(
                "Jam not found or unreachable — check the code and try again".to_owned(),
            );
            self.log("join timed out");
        }
    }

    /// Begins a reconnection where it is due.
    fn tick_reconnect(&mut self, mode: Mode, d: &Drawn)
        ensures
            final(self)@ == old(self)@.reconnect_ticked(mode, d@),
    {
        proof {
            reveal(CoreView::reconnect_ticked);
        }
        let due = match self.link.reconnect_at {
            Some(at) => self.clock.steady_ns >= at,
            None => false,
        };
        if due {
            self.link.reconnect_at = None;
            let id = if self.who.is_host {
                self.who.jam_id.clone()
            } else {
                d.uuid.clone()
            };
            self.ask(Cont::Reconnect { id, mode });
        } else {
            self.tick_pending(mode);
        }
    }

    /// Goes on once the signaling server is connected again, or not.
    pub(super) fn reconnect(&mut self, id: String, mode: Mode, r: Result<(), String>)
        ensures
            final(self)@ == old(self)@.reconnected(
                id@,
                mode,
                match r {
                    Ok(_) => Ok(()),
                    Err(e) => Err(e@),
                },
            ),
    {
        proof {
            reveal(CoreView::reconnected);
        }
        if r.is_ok() {
            self.signaling = true;
            if self.who.is_host {
                let mut m = "re-registered Jam ".to_owned();
                m.append(id.as_str());
                self.log(m.as_str());
            } else {
                let mut m = "reconnecting to Jam ".to_owned();
                let code = match &self.who.target_code {
                    Some(code) => code.clone(),
                    None => String::new(),
                };
                m.append(code.as_str());
                m.append("…");
                self.log(m.as_str());
            }
        }
        self.tick_pending(mode);
    }

    /// Looks after a seek that waits for its song.
    pub(super) fn tick_pending(&mut self, mode: Mode)
        ensures
            final(self)@ == old(self)@.pending_ticked(mode),
    {
        proof {
            reveal(CoreView::pending_ticked);
        }
        let opened: Option<bool> = match &self.follow.pending {
            Some(p) => Some(p.opened),
            None => None,
        };
        match opened {
            Some(true) => {
                self.follow.pending = None;
                self.tick_mode(mode);
            },
            Some(false) => self.ask(Cont::Pending { mode }),
            None => self.tick_mode(mode),
        }
    }

    /// Makes a waiting seek once its song has been opened, or once it is too late.
    pub(super) fn make_pending(&mut self, st: Option<PlayerState>)
        ensures
            final(self)@ == old(self)@.pending_made(option_view(st)),
    {
        proof {
            reveal(CoreView::pending_made);
        }
        let s = match st {
            Some(s) => s,
            None => return,
        };
        let mut pending: Option<PendingSeek> = None;
        std::mem::swap(&mut pending, &mut self.follow.pending);
        let mut p = match pending {
            Some(p) => p,
            None => return,
        };
        let opened = if is_empty(p.uri.as_str()) || is_empty(s.uri.as_str()) {
            !is_empty(p.title.as_str()) && same(s.title.as_str(), p.title.as_str())
        } else {
            same(s.uri.as_str(), p.uri.as_str())
        };
        let clock = self.clock;
        if opened {
            self.pos.anchor(&clock, p.target_us);
            self.tell(PlayerOp::Seek(p.target_us));
            let paused = p.paused;
            p.opened = true;
            self.follow.pending = Some(p);
            if paused {
                self.tell(PlayerOp::Pause);
            }
        } else if clock.steady_ns > p.deadline {
            self.pos.anchor(&clock, p.target_us);
            self.tell(PlayerOp::Seek(p.target_us));
        } else {
            self.follow.pending = Some(p);
        }
    }

    /// Does the periodic work of a guest or a host.
    pub(super) fn tick_mode(&mut self, mode: Mode)
        ensures
            final(self)@ == old(self)@.mode_ticked(mode),
    {
        proof {
            reveal(CoreView::mode_ticked);
        }
        match mode {
            Mode::Guest => {
                self.tick_ping();
                self.tick_sync();
                self.tick_lock();
            },
            Mode::Hosting => self.tick_watch(),
            _ => {},
        }
    }

    /// Guest: sends a ping.
    fn tick_ping(&mut self)
        ensures
            final(self)@ == old(self)@.ping_ticked(),
    {
        proof {
            reveal(CoreView::ping_ticked);
        }
        if self.is_due(self.timers.ping, 5 * SECOND) {
            self.timers.ping = self.clock.steady_ns;
            let msg = ping(self.clock.now_ms());
            self.send(msg);
        }
    }

    /// Guest: asks the host for its song.
    fn tick_sync(&mut self)
        ensures
            final(self)@ == old(self)@.sync_ticked(),
    {
        proof {
            reveal(CoreView::sync_ticked);
        }
        if !self.is_due(self.timers.sync, 6 * SECOND) {
            return;
        }
        self.timers.sync = self.clock.steady_ns;
        let rested = match self.follow.last_applied {
            Some(at) => self.is_due(at, 3 * SECOND),
            None => true,
        };
        let waited = match self.follow.last_sync_req {
            Some(at) => self.is_due(at, 5 * SECOND),
            None => true,
        };
        if rested && waited {
            self.follow.last_sync_req = Some(self.clock.steady_ns);
            self.send(bare("SYNC"));
        }
    }

    /// Guest: holds the player to the host's song, and shows the progress.
    fn tick_lock(&mut self)
        ensures
            final(self)@ == old(self)@.lock_ticked(),
    {
        proof {
            reveal(CoreView::lock_ticked);
        }
        if !self.is_due(self.timers.lock, 2 * SECOND) {
            self.progress();
            return;
        }
        self.timers.lock = self.clock.steady_ns;
        let known = match &self.follow.target {
            Some(t) => !is_empty(t.uri.as_str()) || !is_empty(t.title.as_str()),
            None => false,
        };
        if known {
            self.ask(Cont::Lock);
        } else {
            self.progress();
        }
    }

    /// Host: watches the player.
    fn tick_watch(&mut self)
        ensures
            final(self)@ == old(self)@.watch_ticked(),
    {
        proof {
            reveal(CoreView::watch_ticked);
        }
        if self.is_due(self.timers.watch, 300 * MILLI) {
            self.timers.watch = self.clock.steady_ns;
            self.ask(Cont::Watch);
        } else {
            self.tick_position();
        }
    }

    /// Host: goes on once it is known what the player is doing.
    pub(super) fn finish_watch(&mut self, st: Option<PlayerState>)
        ensures
            final(self)@ == old(self)@.watch_done(option_view(st)),
    {
        proof {
            reveal(CoreView::watch_done);
        }
        if let Some(s) = &st {
            self.watch_player(s);
        }
        self.tick_position();
    }

    /// Host: sends the position.
    fn tick_position(&mut self)
        ensures
            final(self)@ == old(self)@.position_ticked(),
    {
        proof {
            reveal(CoreView::position_ticked);
        }
        if self.is_due(self.timers.tick, 5 * SECOND) {
            self.timers.tick = self.clock.steady_ns;
            self.ask(Cont::Tick);
        } else {
            self.tick_pause();
        }
    }

    /// Host: asserts a pause again.
    pub(super) fn tick_pause(&mut self)
        ensures
            final(self)@ == old(self)@.pause_ticked(),
    {
        proof {
            reveal(CoreView::pause_ticked);
        }
        if self.is_due(self.timers.pause, 2 * SECOND) {
            self.timers.pause = self.clock.steady_ns;
            if self.has_channel() {
                self.ask(Cont::PauseCheck);
            }
        }
    }

    /// Does the periodic work, with what was drawn at random.
    pub fn tick_with(&mut self, d: &Drawn)
        ensures
            final(self)@ == old(self)@.ticked(d@),
    {
        let mode = self.shared.mode;
        self.watch_join();
        self.tick_reconnect(mode, d);
    }

    /// Does the periodic work.
    pub fn tick(&mut self)
        ensures
            exists|d: DrawnView| d.wf() && final(self)@ == #[trigger] old(self)@.ticked(d),
    {
        let d = Drawn::draw();
        self.tick_with(&d);
    }
}

} // verus!
