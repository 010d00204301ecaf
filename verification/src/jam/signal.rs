//! What the connections bring.
use super::{
    Action, ActionView, Answered, AnsweredView, Cont, ContView, CoreView, Drawn, DrawnView, JamCore,
    Link, Mode, Offered, OfferedView, Peer, PeerView, SharedView, WhoView,
};
use crate::clock::{later, SECOND};
use crate::codec::{delivered, CodecView};
use crate::json::{Json, JsonView};
use crate::messages::{
    answer_payload, answer_payload_json, candidate_payload, candidate_payload_json, join, join_json,
    offer_payload, offer_payload_json, signal, signal_json,
};
use crate::peerjs::{CoreEvent, CoreEventView};
use crate::text::{dec, decimal, is_empty, same};
use crate::track::{hosts, keep_hosts, member_views, Member, MemberView};
use vstd::prelude::*;

verus! {

/// How often a guest reconnects by itself.
pub const RECONNECTS: u32 = 3;

/// How much longer a guest waits before each reconnection, in nanoseconds.
pub const BACKOFF: u64 = 1_500_000_000;

/// The payload of a message of the signaling server.
pub open spec fn payload_of(v: JsonView) -> JsonView {
    match v.get("payload"@) {
        Some(p) => p,
        None => JsonView::Null,
    }
}

/// The session description in a message of the signaling server.
pub open spec fn sdp_of(v: JsonView) -> JsonView {
    match payload_of(v).get("sdp"@) {
        Some(s) => s,
        None => JsonView::Null,
    }
}

/// The session description in a message of the signaling server.
fn read_sdp(v: &Json) -> (r: Json)
    ensures
        r@ == sdp_of(v@),
{
    match v.get("payload") {
        Some(p) => match p.get("sdp") {
            Some(s) => s.clone(),
            None => Json::Null,
        },
        None => Json::Null,
    }
}

/// A text in the payload of a message of the signaling server.
pub open spec fn payload_text(v: JsonView, k: Seq<char>, default: Seq<char>) -> Seq<char> {
    payload_of(v).text_or(k, default)
}

/// A text in the payload of a message of the signaling server.
fn read_payload_text(v: &Json, k: &str, default: &str) -> (r: String)
    ensures
        r@ == payload_text(v@, k@, default@),
{
    match v.get("payload") {
        Some(p) => p.str_or(k, default),
        None => default.to_owned(),
    }
}

/// The text of an error of the signaling server: its type, where it has one, and its message.
pub open spec fn error_text(v: JsonView) -> Seq<char> {
    let kind = payload_text(v, "type"@, ""@);
    let msg = payload_text(v, "msg"@, ""@);
    if kind.len() == 0 {
        msg
    } else {
        kind + ": "@ + msg
    }
}

/// The text of an error of the signaling server.
fn read_error(v: &Json) -> (r: String)
    ensures
        r@ == error_text(v@),
{
    let kind = read_payload_text(v, "type", "");
    let msg = read_payload_text(v, "msg", "");
    if is_empty(kind.as_str()) {
        msg
    } else {
        let mut s = kind;
        s.append(": ");
        s.append(msg.as_str());
        s
    }
}

/// The ICE candidate in a message of the signaling server: the `candidate` of the payload's
/// `candidate`, or that itself where it is a text.
pub open spec fn candidate_of(v: JsonView) -> Option<Seq<char>> {
    match payload_of(v).get("candidate"@) {
        Some(c) => match c.text_at("candidate"@) {
            Some(s) => Some(s),
            None => c.text(),
        },
        None => None,
    }
}

/// The media id in a message of the signaling server.
pub open spec fn mid_of(v: JsonView) -> Seq<char> {
    match payload_of(v).get("candidate"@) {
        Some(c) => c.text_or("sdpMid"@, "0"@),
        None => "0"@,
    }
}

/// The ICE candidate in a message of the signaling server, and its media id.
fn read_candidate(v: &Json) -> (r: Option<(String, String)>)
    ensures
        match r {
            Some((c, m)) => candidate_of(v@) == Some(c@) && m@ == mid_of(v@),
            None => candidate_of(v@) is None,
        },
{
    let c = match v.get("payload") {
        Some(p) => match p.get("candidate") {
            Some(c) => c,
            None => return None,
        },
        None => return None,
    };
    let mid = c.str_or("sdpMid", "0");
    match c.str_at("candidate") {
        Some(s) => Some((s.to_owned(), mid)),
        None => match c.as_str() {
            Some(s) => Some((s.to_owned(), mid)),
            None => None,
        },
    }
}

impl CoreView {
    /// The id of the peer connection, if there is one.
    pub open spec fn connection_id(self) -> Seq<char> {
        match self.peer {
            Some(p) => p.connection_id,
            None => Seq::empty(),
        }
    }

    /// The id of the other peer.
    pub open spec fn other_id(self) -> Seq<char> {
        if self.who.is_host {
            self.who.remote_id
        } else {
            match self.who.target_code {
                Some(code) => code,
                None => Seq::empty(),
            }
        }
    }

    /// With this peer registered: the host's Jam is open, and a guest offers a connection.
    #[verifier::opaque]
    pub open spec fn registered(self, d: DrawnView) -> CoreView {
        let c = self.logged("peer open as "@ + self.who.jam_id);
        if self.who.is_host {
            CoreView {
                shared: SharedView {
                    mode: Mode::Hosting,
                    connected: true,
                    jam_id: self.who.jam_id,
                    members: seq![
                        MemberView {
                            id: "host"@,
                            name: self.shared.display_name,
                            is_host: true,
                        },
                    ],
                    ..c.shared
                },
                ..c
            }.logged("Jam code: "@ + self.who.jam_id + " — share it"@)
        } else if self.who.target_code is Some {
            c.asked(ContView::Offer { connection_id: "dc_"@ + d.token })
        } else {
            c
        }
    }

    /// With the offer under way, or not.
    #[verifier::opaque]
    pub open spec fn offer_made(self, id: Seq<char>, r: OfferedView) -> CoreView {
        match r {
            OfferedView::Open => CoreView {
                peer: Some(PeerView { connection_id: id, channel: true }),
                ..self
            },
            OfferedView::NoPeer(e) => self.logged("webrtc init failed: "@ + e),
            OfferedView::Failed { channel, error } => CoreView {
                peer: Some(PeerView { connection_id: id, channel }),
                ..self
            }.logged("offer failed: "@ + error),
        }
    }

    /// With the guest's offer answered, or not.
    #[verifier::opaque]
    pub open spec fn answer_made(self, id: Seq<char>, r: AnsweredView) -> CoreView {
        match r {
            AnsweredView::Done => CoreView {
                peer: Some(PeerView { connection_id: id, channel: false }),
                ..self
            }.logged("guest is connecting…"@),
            AnsweredView::NoPeer(e) => self.logged("webrtc init failed: "@ + e),
            AnsweredView::Failed(e) => self.logged("answer failed: "@ + e),
        }
    }

    /// With the host's answer accepted, or not.
    #[verifier::opaque]
    pub open spec fn answer_accepted(self, r: Result<(), Seq<char>>) -> CoreView {
        match r {
            Ok(_) => self,
            Err(e) => self.logged("accept answer failed: "@ + e),
        }
    }

    /// With the guest's data channel taken over, where there was one.
    #[verifier::opaque]
    pub open spec fn channel_taken(self, there: bool) -> CoreView {
        match self.peer {
            Some(p) if there => CoreView {
                peer: Some(PeerView { channel: true, ..p }),
                ..self
            },
            _ => self,
        }
    }

    /// With the signaling connection lost: in a session it is made again after two seconds.
    #[verifier::opaque]
    pub open spec fn signal_lost(self) -> CoreView {
        if self.shared.mode == Mode::Idle {
            self
        } else {
            let c = self.logged("signaling server lost — reconnecting…"@);
            let e = if self.signaling {
                CoreView { signaling: false, ..c }.did(ActionView::DropSignaling)
            } else {
                c
            };
            CoreView {
                link: Link {
                    reconnect_at: Some(later(self.now(), (2 * SECOND) as u64)),
                    ..e.link
                },
                ..e
            }
        }
    }

    /// With a session description sent to the other peer: a host answers, a guest offers.
    #[verifier::opaque]
    pub open spec fn described_to_peer(self, sdp: JsonView) -> CoreView {
        let kind = if self.who.is_host {
            "ANSWER"@
        } else {
            "OFFER"@
        };
        let payload = if self.who.is_host {
            answer_payload_json(self.connection_id(), sdp)
        } else {
            offer_payload_json(self.connection_id(), sdp)
        };
        if self.signaling {
            self.signalled(signal_json(self.other_id(), payload, kind)).logged("sent "@ + kind)
        } else {
            self
        }
    }

    /// With an ICE candidate sent to the other peer.
    #[verifier::opaque]
    pub open spec fn candidate_to_peer(self, candidate: Seq<char>, mid: Seq<char>) -> CoreView {
        self.signalled(
            signal_json(
                self.other_id(),
                candidate_payload_json(candidate, mid, self.connection_id()),
                "CANDIDATE"@,
            ),
        )
    }

    /// With the data channel open: a guest introduces itself.
    #[verifier::opaque]
    pub open spec fn channel_opened(self) -> CoreView {
        let c = CoreView { link: Link { reconnects: 0, ..self.link }, ..self };
        if self.who.is_host {
            let e = c.logged("guest connected"@);
            CoreView { shared: SharedView { connected: true, ..e.shared }, ..e }
        } else {
            let e = c.logged("connected! joining…"@).sent(join_json(self.shared.display_name));
            CoreView { shared: SharedView { mode: Mode::Guest, ..e.shared }, ..e }
        }
    }

    /// With a frame of the data channel taken in.
    #[verifier::opaque]
    pub open spec fn frame_received(self, b: Seq<u8>) -> CoreView {
        let (table, msg) = delivered(self.codec.table, b);
        let c = CoreView { codec: CodecView { table, ..self.codec }, ..self };
        match msg {
            Some(v) => c.jam_received(v),
            None => c,
        }
    }

    /// With the data channel closed: a guest reconnects, up to three times in a row, and waits
    /// 1.5 s longer each time; a host is alone again.
    #[verifier::opaque]
    pub open spec fn channel_closed(self) -> CoreView {
        if self.who.is_host {
            self.guest_gone(true)
        } else {
            let c = self.peerless();
            let n = if c.link.reconnects < u32::MAX {
                (c.link.reconnects + 1) as u32
            } else {
                u32::MAX
            };
            let e = CoreView { link: Link { reconnects: n, ..c.link }, ..c };
            if n > RECONNECTS {
                e.failed("lost the host"@).logged(
                    "connection lost — retries exhausted"@,
                ).left_quietly()
            } else {
                let f = e.logged(
                    "connection lost, reconnecting ("@ + dec(n as nat) + "/3)…"@,
                ).unsignalled();
                CoreView {
                    link: Link {
                        reconnect_at: Some(later(self.now(), (BACKOFF * n) as u64)),
                        ..f.link
                    },
                    ..f
                }
            }
        }
    }

    /// With an error shown, and no session any more.
    pub open spec fn failed(self, error: Seq<char>) -> CoreView {
        CoreView {
            shared: SharedView {
                error: Some(error),
                mode: Mode::Idle,
                connected: false,
                ..self.shared
            },
            ..self
        }
    }

    /// Host: with the guest gone; `forget` tells that its id is forgotten too.
    #[verifier::opaque]
    pub open spec fn guest_gone(self, forget: bool) -> CoreView {
        let c = self.logged("guest left"@).peerless();
        CoreView {
            who: WhoView {
                guest_name: Seq::empty(),
                remote_id: if forget {
                    Seq::empty()
                } else {
                    c.who.remote_id
                },
                ..c.who
            },
            shared: SharedView {
                connected: false,
                members: hosts(c.shared.members),
                ..c.shared
            },
            ..c
        }
    }

    /// With an error of the connections: one while joining ends the session.
    #[verifier::opaque]
    pub open spec fn peer_failed(self, e: Seq<char>) -> CoreView {
        let c = self.logged("peer error: "@ + e);
        if c.shared.mode == Mode::Joining {
            c.failed(e).left_quietly()
        } else {
            c
        }
    }

    /// Host: with a guest's offer: it is answered unless there is a guest already.
    #[verifier::opaque]
    pub open spec fn offer_received(self, v: JsonView) -> CoreView {
        let src = v.text_or("src"@, ""@);
        if !self.who.is_host {
            self
        } else if self.peer is Some {
            self.logged(
                "another listener tried to join ("@ + src + ") — one guest supported in v1"@,
            )
        } else {
            CoreView { who: WhoView { remote_id: src, ..self.who }, ..self }.asked(
                ContView::Answer {
                    connection_id: payload_text(v, "connectionId"@, "dc_guest"@),
                    sdp: sdp_of(v),
                },
            )
        }
    }

    /// Guest: with the host's answer.
    #[verifier::opaque]
    pub open spec fn answer_received(self, v: JsonView) -> CoreView {
        if !self.who.is_host && self.peer is Some {
            self.asked(ContView::Accept { sdp: sdp_of(v) })
        } else {
            self
        }
    }

    /// With the other peer's ICE candidate.
    #[verifier::opaque]
    pub open spec fn candidate_received(self, v: JsonView) -> CoreView {
        match candidate_of(v) {
            Some(candidate) if self.peer is Some => self.did(
                ActionView::AddCandidate { candidate, mid: mid_of(v) },
            ),
            _ => self,
        }
    }

    /// With the notice that a peer has left.
    #[verifier::opaque]
    pub open spec fn leave_received(self, v: JsonView) -> CoreView {
        if self.who.is_host && self.who.remote_id == v.text_or("src"@, ""@) {
            self.guest_gone(false)
        } else {
            self
        }
    }

    /// Host: with the code of the Jam taken by another one; a new one is drawn.
    #[verifier::opaque]
    pub open spec fn code_taken(self, d: DrawnView) -> CoreView {
        if self.who.is_host {
            self.logged("jam code taken — regenerating"@).session_started(
                true,
                Seq::empty(),
                self.shared.display_name,
                d,
            )
        } else {
            self
        }
    }

    /// With a message of the signaling server dealt with.
    pub open spec fn signal_received(self, v: JsonView, d: DrawnView) -> CoreView {
        let kind = v.text_or("type"@, ""@);
        if kind == "OPEN"@ {
            self.did(ActionView::RaiseOpen(payload_text(v, "peer"@, ""@)))
        } else if kind == "ID-TAKEN"@ {
            self.code_taken(d)
        } else if kind == "EXPIRE"@ {
            self.logged("offer expired"@)
        } else if kind == "ERROR"@ {
            self.did(ActionView::RaiseError(error_text(v)))
        } else if kind == "OFFER"@ {
            self.offer_received(v)
        } else if kind == "ANSWER"@ {
            self.answer_received(v)
        } else if kind == "CANDIDATE"@ {
            self.candidate_received(v)
        } else if kind == "LEAVE"@ {
            self.leave_received(v)
        } else {
            self
        }
    }

    /// With an event dealt with.
    pub open spec fn notified(self, ev: CoreEventView, d: DrawnView) -> CoreView {
        match ev {
            CoreEventView::Log(m) => self.logged(m),
            CoreEventView::PeerOpen(_) => self.registered(d),
            CoreEventView::SignalMessage(v) => self.signal_received(v, d),
            CoreEventView::SignalClosed => self.signal_lost(),
            CoreEventView::DcOpen => self.channel_opened(),
            CoreEventView::DcRaw(b) => self.frame_received(b),
            CoreEventView::DcHostChannel => self.asked(ContView::Channel),
            CoreEventView::DcClosed => self.channel_closed(),
            CoreEventView::LocalDescription(sdp) => self.described_to_peer(sdp),
            CoreEventView::LocalCandidate(c, m) => self.candidate_to_peer(c, m),
            CoreEventView::PeerError(e) => self.peer_failed(e),
        }
    }
}

impl JamCore {
    /// The id of the peer connection, if there is one.
    fn connection_id(&self) -> (r: String)
        ensures
            r@ == self@.connection_id(),
    {
        match &self.peer {
            Some(p) => p.connection_id.clone(),
            None => String::new(),
        }
    }

    /// The id of the other peer.
    fn other_id(&self) -> (r: String)
        ensures
            r@ == self@.other_id(),
    {
        if self.who.is_host {
            self.who.remote_id.clone()
        } else {
            match &self.who.target_code {
                Some(code) => code.clone(),
                None => String::new(),
            }
        }
    }

    /// Goes on once this peer is registered.
    fn register(&mut self, d: &Drawn)
        ensures
            final(self)@ == old(self)@.registered(d@),
    {
        proof {
            reveal(CoreView::registered);
        }
        let mut m = "peer open as ".to_owned();
        m.append(self.who.jam_id.as_str());
        self.log(m.as_str());
        if self.who.is_host {
            self.shared.mode = Mode::Hosting;
            self.shared.connected = true;
            self.shared.jam_id = self.who.jam_id.clone();
            let mut members: Vec<Member> = Vec::new();
            members.push(
                Member {
                    id: "host".to_owned(),
                    name: self.shared.display_name.clone(),
                    is_host: true,
                },
            );
            assert(member_views(members@) =~= seq![
                MemberView { id: "host"@, name: self@.shared.display_name, is_host: true },
            ]);
            self.shared.members = members;
            let mut m = "Jam code: ".to_owned();
            m.append(self.who.jam_id.as_str());
            m.append(" — share it");
            self.log(m.as_str());
        } else if self.who.target_code.is_some() {
            let mut id = "dc_".to_owned();
            id.append(d.token.as_str());
            self.ask(Cont::Offer { connection_id: id });
        }
    }

    /// Goes on once the offer is under way, or not.
    pub(super) fn connect_to_host(&mut self, id: String, r: Offered)
        ensures
            final(self)@ == old(self)@.offer_made(id@, r@),
    {
        proof {
            reveal(CoreView::offer_made);
        }
        match r {
            Offered::Open => {
                self.peer = Some(Peer { connection_id: id, channel: true });
            },
            Offered::NoPeer(e) => {
                let mut m = "webrtc init failed: ".to_owned();
                m.append(e.as_str());
                self.log(m.as_str());
            },
            Offered::Failed { channel, error } => {
                self.peer = Some(Peer { connection_id: id, channel });
                let mut m = "offer failed: ".to_owned();
                m.append(error.as_str());
                self.log(m.as_str());
            },
        }
    }

    /// Goes on once the guest's offer is answered, or not.
    pub(super) fn answer_guest(&mut self, id: String, r: Answered)
        ensures
            final(self)@ == old(self)@.answer_made(id@, r@),
    {
        proof {
            reveal(CoreView::answer_made);
        }
        match r {
            Answered::Done => {
                self.peer = Some(Peer { connection_id: id, channel: false });
                self.log("guest is connecting…");
            },
            Answered::NoPeer(e) => {
                let mut m = "webrtc init failed: ".to_owned();
                m.append(e.as_str());
                self.log(m.as_str());
            },
            Answered::Failed(e) => {
                let mut m = "answer failed: ".to_owned();
                m.append(e.as_str());
                self.log(m.as_str());
            },
        }
    }

    /// Goes on once the host's answer is accepted, or not.
    pub(super) fn accept_answer(&mut self, r: Result<(), String>)
        ensures
            final(self)@ == old(self)@.answer_accepted(
                match r {
                    Ok(_) => Ok(()),
                    Err(e) => Err(e@),
                },
            ),
    {
        proof {
            reveal(CoreView::answer_accepted);
        }
        if let Err(e) = r {
            let mut m = "accept answer failed: ".to_owned();
            m.append(e.as_str());
            self.log(m.as_str());
        }
    }

    /// Takes over the guest's data channel.
    pub(super) fn take_channel(&mut self, there: bool)
        ensures
            final(self)@ == old(self)@.channel_taken(there),
    {
        proof {
            reveal(CoreView::channel_taken);
        }
        if there {
            let mut peer: Option<Peer> = None;
            std::mem::swap(&mut peer, &mut self.peer);
            if let Some(mut p) = peer {
                p.channel = true;
                self.peer = Some(p);
            }
        }
    }

    /// Deals with the loss of the signaling connection.
    fn lose_signal(&mut self)
        ensures
            final(self)@ == old(self)@.signal_lost(),
    {
        proof {
            reveal(CoreView::signal_lost);
        }
        if self.shared.mode == Mode::Idle {
            return;
        }
        self.log("signaling server lost — reconnecting…");
        if self.signaling {
            self.signaling = false;
            self.act(Action::DropSignaling);
        }
        self.link.reconnect_at = Some(self.clock.after(2 * SECOND));
    }

    /// Sends a session description to the other peer.
    fn describe_to_peer(&mut self, sdp: &Json)
        ensures
            final(self)@ == old(self)@.described_to_peer(sdp@),
    {
        proof {
            reveal(CoreView::described_to_peer);
        }
        if !self.signaling {
            return;
        }
        let id = self.connection_id();
        let dst = self.other_id();
        if self.who.is_host {
            let payload = answer_payload(id.as_str(), sdp);
            self.signal(signal(dst.as_str(), &payload, "ANSWER"));
            let mut m = "sent ".to_owned();
            m.append("ANSWER");
            self.log(m.as_str());
        } else {
            let payload = offer_payload(id.as_str(), sdp);
            self.signal(signal(dst.as_str(), &payload, "OFFER"));
            let mut m = "sent ".to_owned();
            m.append("OFFER");
            self.log(m.as_str());
        }
    }

    /// Sends an ICE candidate to the other peer.
    fn candidate_to_peer(&mut self, candidate: &str, mid: &str)
        ensures
            final(self)@ == old(self)@.candidate_to_peer(candidate@, mid@),
    {
        proof {
            reveal(CoreView::candidate_to_peer);
        }
        let id = self.connection_id();
        let dst = self.other_id();
        let payload = candidate_payload(candidate, mid, id.as_str());
        self.signal(signal(dst.as_str(), &payload, "CANDIDATE"));
    }

    /// Deals with the data channel's opening.
    fn open_channel(&mut self)
        ensures
            final(self)@ == old(self)@.channel_opened(),
    {
        proof {
            reveal(CoreView::channel_opened);
        }
        self.link.reconnects = 0;
        if self.who.is_host {
            self.log("guest connected");
            self.shared.connected = true;
        } else {
            self.log("connected! joining…");
            let msg = join(self.shared.display_name.as_str());
            self.send(msg);
            self.shared.mode = Mode::Guest;
        }
    }

    /// Takes in a frame of the data channel.
    fn receive_frame(&mut self, b: &Vec<u8>)
        ensures
            final(self)@ == old(self)@.frame_received(b@),
    {
        proof {
            reveal(CoreView::frame_received);
        }
        if let Some(v) = self.codec.decode(b.as_slice()) {
            self.handle_jam(&v);
        }
    }

    /// Deals with the data channel's closing.
    fn close_channel(&mut self)
        ensures
            final(self)@ == old(self)@.channel_closed(),
    {
        proof {
            reveal(CoreView::channel_closed);
        }
        if self.who.is_host {
            self.lose_guest(true);
            return;
        }
        self.drop_peer();
        self.link.reconnects = self.link.reconnects.saturating_add(1);
        let n: u32 = self.link.reconnects;
        if n > RECONNECTS {
            self.fail("lost the host");
            self.log("connection lost — retries exhausted");
            self.leave_quiet();
        } else {
            let mut m = "connection lost, reconnecting (".to_owned();
            m.append(decimal(n as u64).as_str());
            m.append("/3)…");
            self.log(m.as_str());
            self.close_signaling();
            self.link.reconnect_at = Some(self.clock.after(BACKOFF * n as u64));
        }
    }

    /// Shows an error, and ends the session.
    fn fail(&mut self, error: &str)
        ensures
            final(self)@ == old(self)@.failed(error@),
    {
        self.shared.error = Some(error.to_owned());
        self.shared.mode = Mode::Idle;
        self.shared.connected = false;
    }

    /// Host: deals with the guest's leaving.
    fn lose_guest(&mut self, forget: bool)
        ensures
            final(self)@ == old(self)@.guest_gone(forget),
    {
        proof {
            reveal(CoreView::guest_gone);
        }
        self.log("guest left");
        self.drop_peer();
        self.who.guest_name = String::new();
        if forget {
            self.who.remote_id = String::new();
        }
        self.shared.connected = false;
        self.shared.members = keep_hosts(&self.shared.members);
    }

    /// Deals with an error of the connections.
    fn fail_peer(&mut self, e: &str)
        ensures
            final(self)@ == old(self)@.peer_failed(e@),
    {
        proof {
            reveal(CoreView::peer_failed);
        }
        let mut m = "peer error: ".to_owned();
        m.append(e);
        self.log(m.as_str());
        if self.shared.mode == Mode::Joining {
            self.fail(e);
            self.leave_quiet();
        }
    }

    /// Host: deals with a guest's offer.
    fn take_offer(&mut self, v: &Json)
        ensures
            final(self)@ == old(self)@.offer_received(v@),
    {
        proof {
            reveal(CoreView::offer_received);
        }
        if !self.who.is_host {
            return;
        }
        let src = v.str_or("src", "");
        if self.peer.is_some() {
            let mut m = "another listener tried to join (".to_owned();
            m.append(src.as_str());
            m.append(") — one guest supported in v1");
            self.log(m.as_str());
            return;
        }
        self.who.remote_id = src;
        let connection_id = read_payload_text(v, "connectionId", "dc_guest");
        self.ask(Cont::Answer { connection_id, sdp: read_sdp(v) });
    }

    /// Guest: deals with the host's answer.
    fn take_answer(&mut self, v: &Json)
        ensures
            final(self)@ == old(self)@.answer_received(v@),
    {
        proof {
            reveal(CoreView::answer_received);
        }
        if !self.who.is_host && self.peer.is_some() {
            self.ask(Cont::Accept { sdp: read_sdp(v) });
        }
    }

    /// Deals with the other peer's ICE candidate.
    fn take_candidate(&mut self, v: &Json)
        ensures
            final(self)@ == old(self)@.candidate_received(v@),
    {
        proof {
            reveal(CoreView::candidate_received);
        }
        if let Some((candidate, mid)) = read_candidate(v) {
            if self.peer.is_some() {
                self.act(Action::AddCandidate { candidate, mid });
            }
        }
    }

    /// Deals with the notice that a peer has left.
    fn take_leave(&mut self, v: &Json)
        ensures
            final(self)@ == old(self)@.leave_received(v@),
    {
        proof {
            reveal(CoreView::leave_received);
        }
        let src = v.str_or("src", "");
        if self.who.is_host && same(self.who.remote_id.as_str(), src.as_str()) {
            self.lose_guest(false);
        }
    }

    /// Host: takes another code.
    fn retake_code(&mut self, d: &Drawn)
        ensures
            final(self)@ == old(self)@.code_taken(d@),
    {
        proof {
            reveal(CoreView::code_taken);
        }
        if self.who.is_host {
            self.log("jam code taken — regenerating");
            let name = self.shared.display_name.clone();
            self.start_session(true, String::new(), name, d);
        }
    }

    /// Deals with a message of the signaling server.
    fn handle_signal(&mut self, v: &Json, d: &Drawn)
        ensures
            final(self)@ == old(self)@.signal_received(v@, d@),
    {
        let kind = v.str_or("type", "");
        let k = kind.as_str();
        if same(k, "OPEN") {
            let id = read_payload_text(v, "peer", "");
            self.act(Action::RaiseOpen(id));
        } else if same(k, "ID-TAKEN") {
            self.retake_code(d);
        } else if same(k, "EXPIRE") {
            self.log("offer expired");
        } else if same(k, "ERROR") {
            let e = read_error(v);
            self.act(Action::RaiseError(e));
        } else if same(k, "OFFER") {
            self.take_offer(v);
        } else if same(k, "ANSWER") {
            self.take_answer(v);
        } else if same(k, "CANDIDATE") {
            self.take_candidate(v);
        } else if same(k, "LEAVE") {
            self.take_leave(v);
        }
    }

    /// Deals with an event, with what was drawn at random.
    pub fn handle_event_with(&mut self, ev: CoreEvent, d: &Drawn)
        ensures
            final(self)@ == old(self)@.notified(ev@, d@),
    {
        match ev {
            CoreEvent::Log(m) => self.log(m.as_str()),
            CoreEvent::PeerOpen(_) => self.register(d),
            CoreEvent::SignalMessage(v) => self.handle_signal(&v, d),
            CoreEvent::SignalClosed => self.lose_signal(),
            CoreEvent::DcOpen => self.open_channel(),
            CoreEvent::DcRaw(b) => self.receive_frame(&b),
            CoreEvent::DcHostChannel => self.ask(Cont::Channel),
            CoreEvent::DcClosed => self.close_channel(),
            CoreEvent::LocalDescription(sdp) => self.describe_to_peer(&sdp),
            CoreEvent::LocalCandidate(c, m) => self.candidate_to_peer(c.as_str(), m.as_str()),
            CoreEvent::PeerError(e) => self.fail_peer(e.as_str()),
        }
    }

    /// Deals with an event.
    pub fn handle_event(&mut self, ev: CoreEvent)
        ensures
            exists|d: DrawnView|
                d.wf() && final(self)@ == #[trigger] old(self)@.notified(ev@, d),
    {
        let d = Drawn::draw();
        self.handle_event_with(ev, &d);
    }
}

} // verus!
