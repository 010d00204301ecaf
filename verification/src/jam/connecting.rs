//! How the two sides of a Jam find each other, and how they part.
use super::delivery::lemma_entry;
use super::following::tag;
use super::keeping::{lemma_messages_push, lemma_ops_push, messages, player_ops};
use super::resume::{AnswerView, QuestionView};
use super::{
    appended, goodbye, started, ActionView, AnsweredView, ContView, CoreView, Drift, DrawnView,
    FollowView, Link, Mode, OfferedView, PeerView, SharedView, Timers, UiCmdView, WatchView,
    WhoView, LOG_LINES,
};
use crate::binarypack::packed;
use crate::clock::{later, stamp_of, time_of_day, Clock};
use crate::json::JsonView;
use crate::messages::{
    answer_payload_json, candidate_payload_json, ice_candidate_json, join_json, offer_payload_json,
    play_json, signal_json,
};
use crate::peerjs::CoreEventView;
use crate::player::{BackendView, PlayerStateView};
use crate::text::dec;
use crate::track::{MemberView, TrackView};
use vstd::prelude::*;

verus! {

/// The log ends with the newest line, keeps the others in their order, and never has more than
/// its share.
pub proof fn law_log_keeps_the_newest(logs: Seq<Seq<char>>, line: Seq<char>)
    requires
        logs.len() <= LOG_LINES,
    ensures
        appended(logs, line).last() == line,
        appended(logs, line).len() <= LOG_LINES,
        logs.len() < LOG_LINES ==> appended(logs, line) == logs.push(line),
        logs.len() == LOG_LINES ==> appended(logs, line) == logs.drop_first().push(line),
        LOG_LINES == 400,
{
    assert(logs.len() == LOG_LINES ==> logs.push(line).skip(1) =~= logs.drop_first().push(line));
}

/// A guest that joins begins anew: it looks at its player first, whose song is no pick of the
/// guest's for the next five seconds, and connects under an id of its own.
pub proof fn law_guest_begins_anew(
    c: CoreView,
    code: Seq<char>,
    name: Seq<char>,
    st: Option<PlayerStateView>,
    d: DrawnView,
    e: DrawnView,
)
    ensures
        ({
            let r = c.commanded(UiCmdView::Join { code, name }, d);
            let w = r.answered(AnswerView::Player(st), e);
            &&& r.question() == Some(QuestionView::Player)
            &&& r.peer is None
            &&& !r.signaling
            &&& !r.who.is_host
            &&& r.queue.len() == 0
            &&& r.who.members.len() == 0
            &&& r.who.host_name.len() == 0
            &&& r.who.guest_name.len() == 0
            &&& r.who.gc == c.who.gc
            &&& r.link == (Link { reconnects: 0, ping_ms: -1i64, ..c.link })
            &&& r.follow == (FollowView {
                target: None,
                pending: None,
                join_baseline: None,
                last_local: None,
                settle_until: None,
                ..c.follow
            })
            &&& w.question() == Some(QuestionView::Connect(e.uuid))
            &&& w.out == r.out
            &&& !w.who.is_host
            &&& w.who.jam_id == e.uuid
            &&& w.shared.mode == Mode::Joining
            &&& w.shared.error is None
            &&& w.shared.jam_id == code
            &&& w.shared.display_name == name
            &&& w.shared.members.len() == 0
            &&& w.follow == (FollowView {
                join_baseline: match st {
                    Some(s) => Some(tag(s)),
                    None => None,
                },
                settle_until: Some(later(c.clock.steady_ns, 5_000_000_000)),
                ..r.follow
            })
            &&& w.waiting == Some(ContView::SessionConnect { code })
        }),
{
    reveal(CoreView::session_started);
    reveal(CoreView::based);
    reveal(CoreView::session_named);
}

/// A host begins anew under its code, with the permission that it wants to give.
pub proof fn law_host_begins_anew(
    c: CoreView,
    name: Seq<char>,
    gc: bool,
    code: Option<Seq<char>>,
    d: DrawnView,
)
    ensures
        ({
            let r = c.commanded(UiCmdView::Host { name, gc, code }, d);
            &&& r.question() == Some(QuestionView::Connect(r.who.jam_id))
            &&& r.waiting is Some && r.waiting->0 is SessionConnect
            &&& r.peer is None
            &&& !r.signaling
            &&& r.who.is_host
            &&& r.who.gc == gc
            &&& r.shared.gc == gc
            &&& r.queue.len() == 0
            &&& r.follow.target is None
            &&& r.link.reconnects == 0
            &&& r.shared.mode == Mode::Joining
            &&& r.shared.error is None
            &&& r.shared.display_name == name
            &&& r.shared.jam_id == r.who.jam_id
            &&& player_ops(r.out) == player_ops(c.out)
        }),
{
    broadcast use lemma_ops_push;

    reveal(CoreView::hosted);
    reveal(CoreView::session_started);
    reveal(CoreView::session_named);
}

/// A session that reaches the signaling server goes on: a guest keeps the code of the Jam, and
/// notes when it set out; one that does not is over, and says why.
pub proof fn law_session_connects_or_says_why(
    c: CoreView,
    code: Seq<char>,
    r: Result<(), Seq<char>>,
    d: DrawnView,
)
    requires
        c.waiting == Some(ContView::SessionConnect { code }),
    ensures
        ({
            let w = c.answered(AnswerView::Connected(r), d);
            &&& w.out == c.out
            &&& w.question() == Some(QuestionView::Player)
            &&& w.waiting == Some(ContView::SessionAdopt)
            &&& w.signaling == (r is Ok || c.signaling)
            &&& w.shared.mode == if r is Ok {
                c.shared.mode
            } else {
                Mode::Idle
            }
            &&& w.shared.error == match r {
                Ok(_) => c.shared.error,
                Err(e) => Some("signaling failed: "@ + e),
            }
            &&& w.who == (WhoView {
                target_code: if c.who.is_host {
                    None
                } else {
                    Some(code)
                },
                ..c.who
            })
            &&& w.link.joining_since == if c.who.is_host {
                None
            } else {
                Some(c.clock.steady_ns)
            }
            &&& w.watch == (WatchView { last_uri: None, last_playing: None })
            &&& w.pos.anchor_at is None
        }),
{
    reveal(CoreView::session_connected);
}

/// What the player does when a session begins is taken over: a host watches it from there and
/// shows it, and so does a guest until it knows the host's song.
pub proof fn law_player_is_taken_over(c: CoreView, st: Option<PlayerStateView>, d: DrawnView)
    requires
        c.waiting == Some(ContView::SessionAdopt),
    ensures
        ({
            let r = c.answered(AnswerView::Player(st), d);
            &&& r.out == c.out
            &&& r.waiting is None
            &&& r.queue == c.queue
            &&& r.follow == c.follow
            &&& st is None ==> r == (CoreView { waiting: None, ..c })
            &&& st matches Some(s) ==> {
                &&& r.pos.anchor_at == Some(c.clock.steady_ns)
                &&& r.pos.anchor_pos == s.position_us
                &&& r.watch == if c.who.is_host {
                    WatchView { last_uri: Some(s.uri), last_playing: Some(s.playing) }
                } else {
                    c.watch
                }
                &&& r.shared == if c.who.is_host || c.follow.target is None {
                    SharedView {
                        now_playing: if s.uri.len() > 0 || s.title.len() > 0 {
                            Some(
                                TrackView {
                                    uri: s.uri,
                                    title: s.title,
                                    artist: s.artist,
                                    art_url: s.art_url,
                                },
                            )
                        } else {
                            None
                        },
                        playing: s.playing,
                        progress_us: s.position_us,
                        duration_us: s.duration_us,
                        ..c.shared
                    }
                } else {
                    c.shared
                }
            }
        }),
{
    reveal(CoreView::adopted);
}

/// The first look at the player is shown.
pub proof fn law_first_look_is_shown(
    player: Seq<char>,
    dry_run: bool,
    clock: Clock,
    s: PlayerStateView,
    d: DrawnView,
)
    ensures
        ({
            let c = started(player, dry_run, clock);
            let r = c.answered(AnswerView::Player(Some(s)), d);
            &&& c.question() == Some(QuestionView::Player)
            &&& c.shared.mode == Mode::Idle
            &&& c.out.len() == 0
            &&& c.drift == (Drift {
                ema: 0,
                count: 0,
                deadband: 160_000,
                jump: 650_000,
                enabled: true,
            })
            &&& r == (CoreView {
                waiting: None,
                shared: SharedView {
                    now_playing: Some(
                        TrackView {
                            uri: s.uri,
                            title: s.title,
                            artist: s.artist,
                            art_url: s.art_url,
                        },
                    ),
                    playing: s.playing,
                    progress_us: s.position_us,
                    duration_us: s.duration_us,
                    backend: player,
                    ..c.shared
                },
                ..c
            })
        }),
{
    reveal(CoreView::booted);
}

/// A host that is registered is open under its code, as the only listener; a guest offers the
/// host a connection.
pub proof fn law_registered_peer_goes_on(c: CoreView, id: Seq<char>, d: DrawnView)
    ensures
        ({
            let r = c.notified(CoreEventView::PeerOpen(id), d);
            &&& r.out == c.out
            &&& r.who == c.who
            &&& c.who.is_host ==> {
                &&& r.shared.mode == Mode::Hosting
                &&& r.shared.connected
                &&& r.shared.jam_id == c.who.jam_id
                &&& r.shared.members == seq![
                    MemberView { id: "host"@, name: c.shared.display_name, is_host: true },
                ]
                &&& r.waiting == c.waiting
            }
            &&& !c.who.is_host && c.who.target_code is Some ==> {
                &&& r.question() == Some(QuestionView::Offer("dc_"@ + d.token))
                &&& r.shared.mode == c.shared.mode
                &&& r.shared.connected == c.shared.connected
            }
            &&& !c.who.is_host && c.who.target_code is None ==> r.waiting == c.waiting
                && r.shared.mode == c.shared.mode
        }),
{
    reveal(CoreView::registered);
}

/// A connection that was offered is there with its channel; one that was answered waits for the
/// guest's channel; one that could not be made is not there.
pub proof fn law_connection_is_there_once_made(
    c: CoreView,
    id: Seq<char>,
    sdp: JsonView,
    o: OfferedView,
    a: AnsweredView,
    there: bool,
    d: DrawnView,
)
    ensures
        c.waiting == Some(ContView::Offer { connection_id: id }) ==> {
            let r = c.answered(AnswerView::Offered(o), d);
            &&& r.out == c.out
            &&& r.waiting is None
            &&& r.peer == match o {
                OfferedView::Open => Some(PeerView { connection_id: id, channel: true }),
                OfferedView::NoPeer(_) => c.peer,
                OfferedView::Failed { channel, .. } => Some(
                    PeerView { connection_id: id, channel },
                ),
            }
        },
        c.waiting == Some(ContView::Answer { connection_id: id, sdp }) ==> {
            let r = c.answered(AnswerView::Answered(a), d);
            &&& r.out == c.out
            &&& r.waiting is None
            &&& r.peer == if a is Done {
                Some(PeerView { connection_id: id, channel: false })
            } else {
                c.peer
            }
        },
        c.waiting == Some(ContView::Channel) ==> {
            let r = c.answered(AnswerView::Channel(there), d);
            r == (CoreView {
                waiting: None,
                peer: match c.peer {
                    Some(p) => Some(PeerView { channel: p.channel || there, ..p }),
                    None => None,
                },
                ..c
            })
        },
        c.waiting == Some(ContView::Accept { sdp }) ==> c.answered(
            AnswerView::Accepted(Ok(())),
            d,
        ) == (CoreView { waiting: None, ..c }),
{
    reveal(CoreView::offer_made);
    reveal(CoreView::answer_made);
    reveal(CoreView::channel_taken);
    reveal(CoreView::answer_accepted);
}

/// What a message to another peer holds.
pub proof fn law_signal_says_to_whom(dst: Seq<char>, payload: JsonView, kind: Seq<char>)
    ensures
        ({
            let m = signal_json(dst, payload, kind);
            &&& m.text_at("dst"@) == Some(dst)
            &&& m.text_at("type"@) == Some(kind)
            &&& m.get("payload"@) == Some(payload)
        }),
{
    let o = signal_json(dst, payload, kind)->Object_0;
    reveal_strlit("dst");
    reveal_strlit("payload");
    reveal_strlit("type");
    assert("dst"@.len() == 3);
    assert("payload"@.len() == 7);
    assert("type"@.len() == 4);
    lemma_entry(o, 0);
    lemma_entry(o, 1);
    lemma_entry(o, 2);
}

/// What is said of a connection to the other peer: its id and the session description, or the
/// candidate with its media id.
pub proof fn law_payload_says_which_connection(
    connection: Seq<char>,
    sdp: JsonView,
    candidate: Seq<char>,
    mid: Seq<char>,
)
    ensures
        offer_payload_json(connection, sdp).text_at("connectionId"@) == Some(connection),
        offer_payload_json(connection, sdp).get("sdp"@) == Some(sdp),
        offer_payload_json(connection, sdp).text_at("type"@) == Some("data"@),
        offer_payload_json(connection, sdp).text_at("label"@) == Some(connection),
        offer_payload_json(connection, sdp).text_at("serialization"@) == Some("binary"@),
        offer_payload_json(connection, sdp).bool_at("reliable"@) == Some(true),
        answer_payload_json(connection, sdp).text_at("connectionId"@) == Some(connection),
        answer_payload_json(connection, sdp).get("sdp"@) == Some(sdp),
        answer_payload_json(connection, sdp).text_at("type"@) == Some("data"@),
        candidate_payload_json(candidate, mid, connection).text_at("connectionId"@) == Some(
            connection,
        ),
        candidate_payload_json(candidate, mid, connection).text_at("type"@) == Some("data"@),
        candidate_payload_json(candidate, mid, connection).get("candidate"@) matches Some(i)
            && i.text_at("candidate"@) == Some(candidate) && i.text_at("sdpMid"@) == Some(mid)
            && i.int_at("sdpMLineIndex"@) == Some(0i64),
{
    reveal_strlit("connectionId");
    reveal_strlit("label");
    reveal_strlit("metadata");
    reveal_strlit("reliable");
    reveal_strlit("sdp");
    reveal_strlit("serialization");
    reveal_strlit("type");
    reveal_strlit("candidate");
    reveal_strlit("sdpMLineIndex");
    reveal_strlit("sdpMid");
    assert("connectionId"@.len() == 12);
    assert("label"@.len() == 5);
    assert("metadata"@.len() == 8);
    assert("reliable"@.len() == 8);
    assert("metadata"@[0] == 'm');
    assert("reliable"@[0] == 'r');
    assert("sdp"@.len() == 3);
    assert("serialization"@.len() == 13);
    assert("type"@.len() == 4);
    assert("candidate"@.len() == 9);
    assert("sdpMLineIndex"@.len() == 13);
    assert("sdpMid"@.len() == 6);
    let o = offer_payload_json(connection, sdp)->Object_0;
    lemma_entry(o, 0);
    lemma_entry(o, 1);
    lemma_entry(o, 3);
    lemma_entry(o, 4);
    lemma_entry(o, 5);
    lemma_entry(o, 6);
    let a = answer_payload_json(connection, sdp)->Object_0;
    lemma_entry(a, 0);
    lemma_entry(a, 1);
    lemma_entry(a, 2);
    let p = candidate_payload_json(candidate, mid, connection)->Object_0;
    lemma_entry(p, 0);
    lemma_entry(p, 1);
    lemma_entry(p, 2);
    let i = ice_candidate_json(candidate, mid)->Object_0;
    lemma_entry(i, 0);
    lemma_entry(i, 1);
    lemma_entry(i, 2);
}

/// What is found out about this side's end of the connection goes to the other peer: the guest
/// that made the offer, or the host whose code the guest has.
pub proof fn law_own_end_is_told(
    c: CoreView,
    sdp: JsonView,
    candidate: Seq<char>,
    mid: Seq<char>,
    d: DrawnView,
)
    ensures
        ({
            let r = c.notified(CoreEventView::LocalDescription(sdp), d);
            let w = c.notified(CoreEventView::LocalCandidate(candidate, mid), d);
            let id = match c.peer {
                Some(p) => p.connection_id,
                None => Seq::empty(),
            };
            let dst = if c.who.is_host {
                c.who.remote_id
            } else if c.who.target_code is Some {
                c.who.target_code->0
            } else {
                Seq::empty()
            };
            &&& !c.signaling ==> r == c && w == c
            &&& c.signaling ==> {
                &&& r.out == c.out.push(
                    ActionView::Signal(
                        if c.who.is_host {
                            signal_json(dst, answer_payload_json(id, sdp), "ANSWER"@)
                        } else {
                            signal_json(dst, offer_payload_json(id, sdp), "OFFER"@)
                        },
                    ),
                )
                &&& w == (CoreView {
                    out: c.out.push(
                        ActionView::Signal(
                            signal_json(
                                dst,
                                candidate_payload_json(candidate, mid, id),
                                "CANDIDATE"@,
                            ),
                        ),
                    ),
                    ..c
                })
            }
        }),
{
    reveal(CoreView::described_to_peer);
    reveal(CoreView::candidate_to_peer);
}

/// A guest whose channel is open introduces itself by its name, and is in the session; a host is
/// connected.
pub proof fn law_open_channel_is_used(c: CoreView, d: DrawnView)
    requires
        c.peer matches Some(p) && p.channel,
    ensures
        ({
            let r = c.notified(CoreEventView::DcOpen, d);
            &&& r.link == (Link { reconnects: 0, ..c.link })
            &&& c.who.is_host ==> {
                &&& r.out == c.out
                &&& r.shared.connected
                &&& r.shared.mode == c.shared.mode
            }
            &&& !c.who.is_host ==> {
                &&& messages(r.out) == messages(c.out).push(join_json(c.shared.display_name))
                &&& r.out.len() == c.out.len() + 1
                &&& r.shared.mode == Mode::Guest
                &&& r.shared.connected == c.shared.connected
            }
        }),
{
    broadcast use lemma_messages_push;

    reveal(CoreView::channel_opened);
}

/// A host whose guest is gone is alone again, and ready for another one.
pub proof fn law_host_is_alone_again(c: CoreView, v: JsonView, notice: bool, d: DrawnView)
    requires
        c.who.is_host,
        notice ==> v.text_or("type"@, ""@) == "LEAVE"@ && v.text_or("src"@, ""@)
            == c.who.remote_id,
    ensures
        ({
            let r = c.notified(
                if notice {
                    CoreEventView::SignalMessage(v)
                } else {
                    CoreEventView::DcClosed
                },
                d,
            );
            &&& r.peer is None
            &&& r.out == if c.peer is Some {
                c.out.push(ActionView::DropPeer)
            } else {
                c.out
            }
            &&& r.who.guest_name.len() == 0
            &&& r.who.remote_id == if notice {
                c.who.remote_id
            } else {
                Seq::empty()
            }
            &&& !r.shared.connected
            &&& r.shared.members == c.shared.members.filter(|m: MemberView| m.is_host)
            &&& r.shared.mode == c.shared.mode
            &&& r.signaling == c.signaling
            &&& r.queue == c.queue
        }),
{
    crate::track::law_hosts_are_those_that_say_so(c.shared.members);
    lemma_signals();
    reveal(CoreView::leave_received);
    reveal(CoreView::channel_closed);
    reveal(CoreView::guest_gone);
}

/// The messages of the signaling server are told apart.
proof fn lemma_signals()
    ensures
        "OPEN"@ != "ID-TAKEN"@,
        "OPEN"@ != "EXPIRE"@,
        "OPEN"@ != "ERROR"@,
        "OPEN"@ != "OFFER"@,
        "OPEN"@ != "ANSWER"@,
        "OPEN"@ != "CANDIDATE"@,
        "OPEN"@ != "LEAVE"@,
        "ID-TAKEN"@ != "EXPIRE"@,
        "ID-TAKEN"@ != "ERROR"@,
        "ID-TAKEN"@ != "OFFER"@,
        "ID-TAKEN"@ != "ANSWER"@,
        "ID-TAKEN"@ != "CANDIDATE"@,
        "ID-TAKEN"@ != "LEAVE"@,
        "EXPIRE"@ != "ERROR"@,
        "EXPIRE"@ != "OFFER"@,
        "EXPIRE"@ != "ANSWER"@,
        "EXPIRE"@ != "CANDIDATE"@,
        "EXPIRE"@ != "LEAVE"@,
        "ERROR"@ != "OFFER"@,
        "ERROR"@ != "ANSWER"@,
        "ERROR"@ != "CANDIDATE"@,
        "ERROR"@ != "LEAVE"@,
        "OFFER"@ != "ANSWER"@,
        "OFFER"@ != "CANDIDATE"@,
        "OFFER"@ != "LEAVE"@,
        "ANSWER"@ != "CANDIDATE"@,
        "ANSWER"@ != "LEAVE"@,
        "CANDIDATE"@ != "LEAVE"@,
{
    reveal_strlit("OPEN");
    reveal_strlit("ID-TAKEN");
    reveal_strlit("EXPIRE");
    reveal_strlit("ERROR");
    reveal_strlit("OFFER");
    reveal_strlit("ANSWER");
    reveal_strlit("CANDIDATE");
    reveal_strlit("LEAVE");
    assert("OPEN"@.len() == 4);
    assert("ID-TAKEN"@.len() == 8);
    assert("EXPIRE"@.len() == 6);
    assert("ERROR"@.len() == 5);
    assert("OFFER"@.len() == 5);
    assert("ANSWER"@.len() == 6);
    assert("CANDIDATE"@.len() == 9);
    assert("LEAVE"@.len() == 5);
    assert("EXPIRE"@[0] == 'E');
    assert("ANSWER"@[0] == 'A');
    assert("ERROR"@[0] == 'E');
    assert("OFFER"@[0] == 'O');
    assert("LEAVE"@[0] == 'L');
}

/// What the signaling server says is heard: that this peer is registered, and what is wrong.
pub proof fn law_signaling_server_is_heard(c: CoreView, v: JsonView, d: DrawnView)
    ensures
        ({
            let r = c.notified(CoreEventView::SignalMessage(v), d);
            let kind = v.text_or("type"@, ""@);
            let payload = match v.get("payload"@) {
                Some(p) => p,
                None => JsonView::Null,
            };
            let what = payload.text_or("type"@, ""@);
            let msg = payload.text_or("msg"@, ""@);
            &&& kind == "OPEN"@ ==> r == (CoreView {
                out: c.out.push(ActionView::RaiseOpen(payload.text_or("peer"@, ""@))),
                ..c
            })
            &&& kind == "ERROR"@ ==> r == (CoreView {
                out: c.out.push(
                    ActionView::RaiseError(
                        if what.len() > 0 {
                            what + ": "@ + msg
                        } else {
                            msg
                        },
                    ),
                ),
                ..c
            })
            &&& kind == "EXPIRE"@ ==> r == (CoreView {
                shared: SharedView { logs: r.shared.logs, ..c.shared },
                ..c
            })
        }),
{
    lemma_signals();
}

/// The other end of the connection is heard of: a guest's offer is answered by a host that has no
/// guest, a host's answer is accepted by a guest that has made an offer, and a candidate is handed
/// on where there is a connection.
#[verifier::spinoff_prover]
#[verifier::rlimit(40)]
pub proof fn law_other_end_is_heard(c: CoreView, v: JsonView, d: DrawnView)
    ensures
        ({
            let r = c.notified(CoreEventView::SignalMessage(v), d);
            let kind = v.text_or("type"@, ""@);
            let payload = match v.get("payload"@) {
                Some(p) => p,
                None => JsonView::Null,
            };
            let sdp = match payload.get("sdp"@) {
                Some(s) => s,
                None => JsonView::Null,
            };
            &&& kind == "OFFER"@ ==> {
                &&& !c.who.is_host ==> r == c
                &&& c.who.is_host && c.peer is None ==> r == (CoreView {
                    who: WhoView { remote_id: v.text_or("src"@, ""@), ..c.who },
                    waiting: Some(
                        ContView::Answer {
                            connection_id: payload.text_or("connectionId"@, "dc_guest"@),
                            sdp,
                        },
                    ),
                    ..c
                })
            }
            &&& kind == "ANSWER"@ ==> r == if !c.who.is_host && c.peer is Some {
                CoreView { waiting: Some(ContView::Accept { sdp }), ..c }
            } else {
                c
            }
            &&& kind == "ANSWER"@ && !c.who.is_host && c.peer is Some ==> r.question() == Some(
                QuestionView::Accept(sdp),
            )
            &&& kind == "OFFER"@ && c.who.is_host && c.peer is None ==> r.question() == Some(
                QuestionView::Answer {
                    connection_id: payload.text_or("connectionId"@, "dc_guest"@),
                    sdp,
                },
            )
            &&& kind == "CANDIDATE"@ && c.peer is None ==> r == c
            &&& kind == "CANDIDATE"@ && c.peer is Some ==> (payload.get("candidate"@) matches Some(
                i,
            ) ==> {
                &&& i.text_at("candidate"@) matches Some(s) ==> r == (CoreView {
                    out: c.out.push(
                        ActionView::AddCandidate {
                            candidate: s,
                            mid: i.text_or("sdpMid"@, "0"@),
                        },
                    ),
                    ..c
                })
                &&& i is Str ==> r == (CoreView {
                    out: c.out.push(
                        ActionView::AddCandidate { candidate: i->Str_0, mid: "0"@ },
                    ),
                    ..c
                })
            })
            &&& kind == "LEAVE"@ && !(c.who.is_host && c.who.remote_id == v.text_or("src"@, ""@))
                ==> r == c
        }),
{
    lemma_signals();
    reveal(CoreView::offer_received);
    reveal(CoreView::answer_received);
    reveal(CoreView::candidate_received);
    reveal(CoreView::leave_received);
}

/// A host whose code is taken begins again under one that is drawn, with the same name and
/// permission; to a guest that means nothing.
pub proof fn law_taken_code_is_replaced(c: CoreView, v: JsonView, d: DrawnView)
    requires
        v.text_or("type"@, ""@) == "ID-TAKEN"@,
    ensures
        ({
            let r = c.notified(CoreEventView::SignalMessage(v), d);
            &&& !c.who.is_host ==> r == c
            &&& c.who.is_host ==> {
                &&& r.who.is_host
                &&& r.who.gc == c.who.gc
                &&& r.who.jam_id == d.code
                &&& r.shared.jam_id == d.code
                &&& r.shared.display_name == c.shared.display_name
                &&& r.shared.mode == Mode::Joining
                &&& r.question() == Some(QuestionView::Connect(d.code))
                &&& r.peer is None
                &&& !r.signaling
            }
        }),
{
    lemma_signals();
    reveal(CoreView::code_taken);
    reveal(CoreView::session_started);
    reveal(CoreView::session_named);
    reveal_strlit("");
    assert(super::session::alnums(Seq::empty()).len() == 0);
}

/// The rest of a tick keeps the connections.
proof fn lemma_tick_keeps_the_link(c: CoreView, mode: Mode)
    ensures
        c.pending_ticked(mode).signaling == c.signaling,
        c.pending_ticked(mode).link == c.link,
        !(c.waiting matches Some(k) && k is Reconnect) ==> !(c.pending_ticked(
            mode,
        ).waiting matches Some(k) && k is Reconnect),
{
    reveal(CoreView::pending_ticked);
    reveal(CoreView::mode_ticked);
    reveal(CoreView::ping_ticked);
    reveal(CoreView::sync_ticked);
    reveal(CoreView::lock_ticked);
    reveal(CoreView::watch_ticked);
    reveal(CoreView::position_ticked);
    reveal(CoreView::pause_ticked);
}

/// A session that loses the signaling server goes on without it, and connects again two seconds
/// later, a host under its code and a guest under a new id; without a session nothing is done.
#[verifier::spinoff_prover]
#[verifier::rlimit(40)]
pub proof fn law_signaling_server_is_found_again(
    c: CoreView,
    clock: Clock,
    r: Result<(), Seq<char>>,
    d: DrawnView,
)
    requires
        c.clock.steady_ns < 0x8000_0000_0000_0000,
        c.waiting is None,
        c.shared.mode != Mode::Joining,
    ensures
        c.shared.mode == Mode::Idle ==> c.notified(CoreEventView::SignalClosed, d) == c,
        c.shared.mode != Mode::Idle ==> {
            let lost = c.notified(CoreEventView::SignalClosed, d);
            let w = CoreView { clock, ..lost }.ticked(d);
            &&& !lost.signaling
            &&& lost.peer == c.peer
            &&& lost.shared.mode == c.shared.mode
            &&& lost.shared.connected == c.shared.connected
            &&& lost.out == if c.signaling {
                c.out.push(ActionView::DropSignaling)
            } else {
                c.out
            }
            &&& lost.link.reconnect_at == Some((c.clock.steady_ns + 2_000_000_000) as u64)
            &&& clock.steady_ns >= c.clock.steady_ns + 2_000_000_000 ==> {
                &&& w.question() == Some(
                    QuestionView::Connect(
                        if c.who.is_host {
                            c.who.jam_id
                        } else {
                            d.uuid
                        },
                    ),
                )
                &&& w.link.reconnect_at is None
                &&& w.out == lost.out
                &&& w.answered(AnswerView::Connected(r), d).signaling == r is Ok
            }
            &&& clock.steady_ns < c.clock.steady_ns + 2_000_000_000 ==> {
                &&& w.link.reconnect_at == lost.link.reconnect_at
                &&& !w.signaling
            }
        },
{
    let lost = c.notified(CoreEventView::SignalClosed, d);
    let w = CoreView { clock, ..lost };
    reveal(CoreView::signal_lost);
    reveal(CoreView::join_watched);
    reveal(CoreView::reconnect_ticked);
    reveal(CoreView::reconnected);
    lemma_tick_keeps_the_link(w, c.shared.mode);
    if let Some(ContView::Reconnect { id, mode }) = w.ticked(d).waiting {
        let again = CoreView { waiting: None, ..w.ticked(d) };
        let on = CoreView { signaling: true, ..again }.logged(
            if again.who.is_host {
                "re-registered Jam "@ + id
            } else {
                "reconnecting to Jam "@ + match again.who.target_code {
                    Some(code) => code,
                    None => Seq::empty(),
                } + "…"@
            },
        );
        lemma_tick_keeps_the_link(on, mode);
        lemma_tick_keeps_the_link(again, mode);
    }
}

/// A guest that does not get through within six seconds gives up, and says so.
pub proof fn law_joining_is_given_up(c: CoreView, since: u64, d: DrawnView)
    requires
        c.shared.mode == Mode::Joining,
        c.link.joining_since == Some(since),
        c.link.reconnect_at is None,
        c.follow.pending is None,
    ensures
        c.clock.steady_ns - since < 6_000_000_000 ==> c.ticked(d) == c,
        c.clock.steady_ns - since >= 6_000_000_000 ==> {
            let r = c.ticked(d);
            &&& r.shared.mode == Mode::Idle
            &&& r.shared.error == Some(
                "Jam not found or unreachable — check the code and try again"@,
            )
            &&& r.peer is None
            &&& !r.signaling
            &&& r.link.joining_since is None
            &&& player_ops(r.out) == player_ops(c.out)
        },
{
    broadcast use lemma_ops_push;

    reveal(CoreView::join_watched);
    reveal(CoreView::reconnect_ticked);
    reveal(CoreView::pending_ticked);
    reveal(CoreView::mode_ticked);
}

/// An error of the connections ends an attempt to join, which says why; a session goes on.
pub proof fn law_error_ends_joining(c: CoreView, e: Seq<char>, d: DrawnView)
    ensures
        ({
            let r = c.notified(CoreEventView::PeerError(e), d);
            &&& c.shared.mode == Mode::Joining ==> {
                &&& r.shared.mode == Mode::Idle
                &&& r.shared.error == Some(e)
                &&& !r.shared.connected
                &&& r.peer is None
                &&& !r.signaling
            }
            &&& c.shared.mode != Mode::Joining ==> r == (CoreView {
                shared: SharedView { logs: r.shared.logs, ..c.shared },
                ..c
            })
        }),
{
    reveal(CoreView::peer_failed);
}

/// Who leaves says goodbye to the other side, lets go of it, and takes leave of the signaling
/// server, in this order; nothing of the session is shown any more.
pub proof fn law_leaving_says_goodbye(c: CoreView, d: DrawnView)
    ensures
        ({
            let r = c.commanded(UiCmdView::Leave, d);
            let one = if c.peer is Some && c.peer->0.channel {
                c.out.push(ActionView::Goodbye(packed(goodbye())))
            } else {
                c.out
            };
            let two = if c.peer is Some {
                one.push(ActionView::DropPeer)
            } else {
                one
            };
            &&& r.out == if c.signaling {
                two.push(ActionView::CloseSignaling)
            } else {
                two
            }
            &&& r.peer is None
            &&& !r.signaling
            &&& r.link.reconnect_at is None
            &&& r.shared == (SharedView {
                mode: Mode::Idle,
                connected: false,
                members: Seq::empty(),
                queue: Seq::empty(),
                now_playing: None,
                ping_ms: -1i64,
                logs: r.shared.logs,
                ..c.shared
            })
        }),
{
    reveal(CoreView::left);
}

/// The drift correction is as the user wants it, and starts anew; no bound is below zero, and the
/// jump threshold is not below the deadband.
pub proof fn law_drift_is_tuned(
    c: CoreView,
    enabled: bool,
    deadband_us: i64,
    jump_us: i64,
    d: DrawnView,
)
    ensures
        ({
            let r = c.commanded(UiCmdView::SetDrift { enabled, deadband_us, jump_us }, d);
            &&& r.out == c.out
            &&& r.drift.enabled == enabled
            &&& r.drift.ema == 0
            &&& r.drift.count == 0
            &&& deadband_us >= 0 ==> r.drift.deadband == deadband_us
            &&& deadband_us < 0 ==> r.drift.deadband == 0
            &&& r.drift.jump >= r.drift.deadband
            &&& r.drift.jump == jump_us || (jump_us < r.drift.deadband && r.drift.jump
                == r.drift.deadband) || (jump_us < 0 && r.drift.jump == r.drift.deadband)
            &&& jump_us >= r.drift.deadband ==> r.drift.jump == jump_us
            &&& r.shared.drift_enabled == enabled
            &&& r.shared.drift_deadband_us == r.drift.deadband
            &&& r.shared.drift_jump_us == r.drift.jump
        }),
{
    reveal(CoreView::tuned);
}

/// Another player is asked for, and once it is there the session goes by it: what was known of
/// the one before is forgotten, and the new one is looked at. One that cannot be had changes
/// nothing.
pub proof fn law_player_is_switched(
    c: CoreView,
    backend: BackendView,
    name: Seq<char>,
    why: Seq<char>,
    d: DrawnView,
)
    ensures
        ({
            let asked = c.commanded(UiCmdView::SetBackend(backend), d);
            let r = asked.answered(AnswerView::Made(Ok(name)), d);
            let e = asked.answered(AnswerView::Made(Err(why)), d);
            &&& asked == (CoreView { waiting: Some(ContView::Swap { backend }), ..c })
            &&& asked.question() == Some(QuestionView::MakePlayer(backend))
            &&& r.player == name
            &&& r.shared.backend == name
            &&& r.out == c.out
            &&& r.pos.anchor_at is None
            &&& r.watch == (WatchView { last_uri: None, last_playing: None })
            &&& r.follow == (FollowView { pending: None, ..c.follow })
            &&& r.own_queue is None
            &&& r.queue == c.queue
            &&& r.question() == Some(QuestionView::Player)
            &&& r.waiting == Some(ContView::SwapAdopt)
            &&& e == (CoreView {
                waiting: None,
                shared: SharedView { logs: e.shared.logs, ..c.shared },
                ..c
            })
        }),
{
    reveal(CoreView::swapped);
}

/// Once the new player is there, a host tells its guest what it does, and a guest that knows the
/// host's song marks the new player's as no pick for five seconds.
#[verifier::spinoff_prover]
#[verifier::rlimit(40)]
pub proof fn law_new_player_is_brought_in(
    c: CoreView,
    st: Option<PlayerStateView>,
    s: PlayerStateView,
    d: DrawnView,
)
    requires
        c.waiting == Some(ContView::SwapAdopt),
        c.peer matches Some(p) && p.channel,
        -0x1000_0000_0000_0000 <= s.position_us <= 0x1000_0000_0000_0000,
        !s.playing,
    ensures
        ({
            let r = c.answered(AnswerView::Player(st), d);
            let w = r.answered(AnswerView::Player(Some(s)), d);
            &&& r.out == c.out
            &&& c.who.is_host ==> {
                &&& r.question() == Some(QuestionView::Player)
                &&& messages(w.out) == if s.uri.len() > 0 {
                    messages(c.out).push(
                        play_json(
                            s.duration_us as int,
                            TrackView {
                                uri: s.uri,
                                title: s.title,
                                artist: s.artist,
                                art_url: s.art_url,
                            },
                            true,
                            Some(s.position_us as int),
                            stamp_of(c.clock) as int,
                            s.uri,
                        ),
                    )
                } else {
                    messages(c.out)
                }
            }
            &&& !c.who.is_host && c.follow.target is Some ==> {
                &&& r.question() == Some(QuestionView::Player)
                &&& r.shared == c.shared
                &&& w.out == c.out
                &&& w.follow.join_baseline == Some(tag(s))
                &&& w.follow.last_local is None
                &&& w.follow.settle_until == Some(later(c.clock.steady_ns, 5_000_000_000))
                &&& w.follow.target == c.follow.target
            }
            &&& !c.who.is_host && c.follow.target is None ==> r.waiting is None
        }),
{
    broadcast use lemma_messages_push;

    reveal(CoreView::swap_adopted);
    reveal(CoreView::adopted);
    reveal(CoreView::swap_told);
    reveal(CoreView::swap_based);
    reveal(CoreView::based);
    reveal(CoreView::announced);
}

/// The data channel of a guest is asked for when it shows up.
pub proof fn law_channel_is_asked_for(c: CoreView, d: DrawnView)
    ensures
        c.notified(CoreEventView::DcHostChannel, d) == (CoreView {
            waiting: Some(ContView::Channel),
            ..c
        }),
        c.notified(CoreEventView::DcHostChannel, d).question() == Some(QuestionView::Channel),
{
}

/// The code that a host wishes for is its code: the letters and digits among the first eight
/// characters, in their order; where there are none, the code is drawn.
pub proof fn law_wished_code_is_the_code(
    c: CoreView,
    name: Seq<char>,
    gc: bool,
    wish: Seq<char>,
    d: DrawnView,
)
    ensures
        ({
            let r = c.commanded(UiCmdView::Host { name, gc, code: Some(wish) }, d);
            let first = if wish.len() <= 8 {
                wish
            } else {
                wish.take(8)
            };
            let kept = first.filter(
                |x: char| 'a' <= x <= 'z' || 'A' <= x <= 'Z' || '0' <= x <= '9',
            );
            r.who.jam_id == if kept.len() > 0 {
                kept
            } else {
                d.code
            }
        }),
{
    let first = if wish.len() <= 8 {
        wish
    } else {
        wish.take(8)
    };
    lemma_alnums_are_filtered(first);
    reveal(CoreView::hosted);
    reveal(CoreView::session_started);
    reveal(CoreView::session_named);
}

/// The letters and digits of a text are those of its characters that are letters or digits.
proof fn lemma_alnums_are_filtered(s: Seq<char>)
    ensures
        super::session::alnums(s) == s.filter(
            |x: char| 'a' <= x <= 'z' || 'A' <= x <= 'Z' || '0' <= x <= '9',
        ),
    decreases s.len(),
{
    reveal(Seq::filter);
    if s.len() > 0 {
        lemma_alnums_are_filtered(s.drop_last());
    } else {
        assert(s =~= Seq::empty());
    }
}

/// A session starts bare: without connections, queue, song or listeners, and with all periodic
/// work still to come.
pub proof fn law_session_starts_bare(player: Seq<char>, dry_run: bool, clock: Clock)
    ensures
        ({
            let c = started(player, dry_run, clock);
            let now = clock.steady_ns;
            &&& c.dry_run == dry_run
            &&& c.clock == clock
            &&& c.player == player
            &&& c.peer is None
            &&& !c.signaling
            &&& !c.shared.connected
            &&& c.shared.error is None
            &&& c.shared.now_playing is None
            &&& c.shared.members.len() == 0
            &&& c.shared.queue.len() == 0
            &&& c.shared.logs.len() == 0
            &&& c.shared.ping_ms == -1
            &&& c.link.ping_ms == -1
            &&& c.link.reconnects == 0
            &&& c.link.reconnect_at is None
            &&& c.link.joining_since is None
            &&& !c.who.is_host
            &&& !c.who.gc
            &&& c.who.target_code is None
            &&& c.queue.len() == 0
            &&& c.own_queue is None
            &&& c.titles.len() == 0
            &&& c.follow.target is None
            &&& c.follow.pending is None
            &&& c.follow.last_applied is None
            &&& c.follow.playuri_sent is None
            &&& c.pos.anchor_at is None
            &&& c.watch == (WatchView { last_uri: None, last_playing: None })
            &&& c.timers == (Timers {
                ping: now,
                sync: now,
                lock: now,
                watch: now,
                tick: now,
                pause: now,
            })
            &&& c.codec.sent == 0
            &&& c.codec.table.dom().is_empty()
        }),
{
}

/// A guest that loses the host lets go of it and of the signaling server, and waits to connect
/// again: 1.5 s the first time, 3 s the second, 4.5 s the third.
pub proof fn law_lost_host_is_let_go(c: CoreView, d: DrawnView)
    requires
        !c.who.is_host,
        c.link.reconnects < 3,
        c.clock.steady_ns < 0x8000_0000_0000_0000,
    ensures
        ({
            let r = c.notified(CoreEventView::DcClosed, d);
            let one = if c.peer is Some {
                c.out.push(ActionView::DropPeer)
            } else {
                c.out
            };
            &&& r.out == if c.signaling {
                one.push(ActionView::CloseSignaling)
            } else {
                one
            }
            &&& !r.signaling
            &&& r.peer is None
            &&& r.link.reconnect_at == Some(
                (c.clock.steady_ns + 1_500_000_000 * (c.link.reconnects + 1)) as u64,
            )
            &&& r.who == c.who
            &&& r.follow == c.follow
            &&& r.queue == c.queue
        }),
{
    reveal(CoreView::channel_closed);
}

/// What is to be noted is noted, behind the time of day, and nothing else happens.
pub proof fn law_notes_are_noted(c: CoreView, m: Seq<char>, d: DrawnView)
    ensures
        c.notified(CoreEventView::Log(m), d) == (CoreView {
            shared: SharedView {
                logs: appended(c.shared.logs, time_of_day(c.clock) + seq![' '] + m),
                ..c.shared
            },
            ..c
        }),
{
}

/// Whether the log ends with a line, behind the time of day.
pub open spec fn notes(c: CoreView, r: CoreView, line: Seq<char>) -> bool {
    r.shared.logs.len() > 0 && r.shared.logs.last() == time_of_day(c.clock) + seq![' '] + line
}

/// A line that is added to the log is its last.
broadcast proof fn lemma_appended_last(logs: Seq<Seq<char>>, line: Seq<char>)
    ensures
        (#[trigger] appended(logs, line)).len() > 0,
        appended(logs, line).last() == line,
{
}

/// The log of a host says under which code the Jam is open, and how its guest comes and goes.
pub proof fn law_log_tells_of_the_guest(c: CoreView, id: Seq<char>, d: DrawnView)
    requires
        c.who.is_host,
    ensures
        notes(
            c,
            c.notified(CoreEventView::PeerOpen(id), d),
            "Jam code: "@ + c.who.jam_id + " — share it"@,
        ),
        notes(c, c.notified(CoreEventView::DcOpen, d), "guest connected"@),
        notes(c, c.notified(CoreEventView::DcClosed, d), "guest left"@),
{
    broadcast use lemma_appended_last;

    reveal(CoreView::registered);
    reveal(CoreView::channel_opened);
    reveal(CoreView::channel_closed);
    reveal(CoreView::guest_gone);
}

/// The log of a guest says how the connection to the host comes and goes.
pub proof fn law_log_tells_of_the_host(c: CoreView, d: DrawnView)
    requires
        !c.who.is_host,
    ensures
        notes(c, c.notified(CoreEventView::DcOpen, d), "connected! joining…"@),
        c.link.reconnects < 3 ==> notes(
            c,
            c.notified(CoreEventView::DcClosed, d),
            "connection lost, reconnecting ("@ + dec((c.link.reconnects + 1) as nat) + "/3)…"@,
        ),
{
    broadcast use lemma_appended_last;

    reveal(CoreView::channel_opened);
    reveal(CoreView::channel_closed);
}

/// The log says what went wrong.
pub proof fn law_log_tells_what_went_wrong(c: CoreView, id: Seq<char>, e: Seq<char>, d: DrawnView)
    ensures
        c.shared.mode != Mode::Idle ==> notes(
            c,
            c.notified(CoreEventView::SignalClosed, d),
            "signaling server lost — reconnecting…"@,
        ),
        notes(c, c.notified(CoreEventView::PeerError(e), d), "peer error: "@ + e),
        c.waiting == Some(ContView::Offer { connection_id: id }) ==> notes(
            c,
            c.answered(AnswerView::Offered(OfferedView::NoPeer(e)), d),
            "webrtc init failed: "@ + e,
        ),
        c.waiting == Some(ContView::Offer { connection_id: id }) ==> notes(
            c,
            c.answered(AnswerView::Offered(OfferedView::Failed { channel: false, error: e }), d),
            "offer failed: "@ + e,
        ),
{
    broadcast use lemma_appended_last;

    assert(c.shared.mode != Mode::Idle ==> notes(
        c,
        c.notified(CoreEventView::SignalClosed, d),
        "signaling server lost — reconnecting…"@,
    )) by {
        reveal(CoreView::signal_lost);
    }
    assert(notes(c, c.notified(CoreEventView::PeerError(e), d), "peer error: "@ + e)) by {
        reveal(CoreView::peer_failed);
    }
    reveal(CoreView::offer_made);
}

} // verus!
