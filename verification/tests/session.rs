use jam::binarypack::unpack;
use jam::clock::Clock;
use jam::codec::JamCodec;
use jam::document::parse;
use jam::jam::resume::{Answer, FetchError, Question};
use jam::jam::{
    Action, Answered, Drawn, JamCore, Mode, Offered, PlayerOp, UiCmd,
};
use jam::json::{Json, Number};
use jam::peerjs::CoreEvent;
use jam::player::{Backend, PlayerState};

fn json(text: &str) -> Json {
    parse(text).unwrap()
}

const EPOCH: u64 = 1_700_000_000_000;

fn at(ms: u64) -> Clock {
    Clock { steady_ns: ms * 1_000_000, epoch_ms: Some(EPOCH + ms) }
}

fn drawn() -> Drawn {
    Drawn {
        code: "QWERTY".into(),
        uuid: "00000000-0000-4000-8000-000000000000".into(),
        token: "abcdefghijklmnop".into(),
    }
}

fn playing(uri: &str, title: &str, ms: i64) -> PlayerState {
    PlayerState {
        playing: true,
        position_us: ms * 1000,
        duration_us: 200_000_000,
        uri: uri.into(),
        title: title.into(),
        artist: "the artist".into(),
        art_url: String::new(),
    }
}

fn paused(uri: &str, title: &str, ms: i64) -> PlayerState {
    PlayerState { playing: false, ..playing(uri, title, ms) }
}

fn a_core(dry_run: bool) -> JamCore {
    let mut c = JamCore::new("cliamp", dry_run, at(0));
    assert!(matches!(c.question(), Some(Question::Player)));
    c.resume(Answer::Player(None));
    assert!(c.question().is_none());
    c
}

/// What was sent over the data channel among some actions.
fn sent(actions: &[Action]) -> Vec<Json> {
    let mut codec = JamCodec::new();
    let mut v = Vec::new();
    for a in actions {
        if let Action::Send { msg, frames } = a {
            let mut got = None;
            for f in frames {
                got = codec.decode(f);
            }
            assert_eq!(got.as_ref(), Some(msg));
            v.push(msg.clone());
        }
    }
    v
}

fn kinds(actions: &[Action]) -> Vec<String> {
    sent(actions).iter().map(|m| m.str_or("type", "?")).collect()
}

fn ops(actions: &[Action]) -> Vec<String> {
    actions
        .iter()
        .filter_map(|a| match a {
            Action::Player(PlayerOp::Play) => Some("play".to_string()),
            Action::Player(PlayerOp::Pause) => Some("pause".to_string()),
            Action::Player(PlayerOp::Next) => Some("next".to_string()),
            Action::Player(PlayerOp::Seek(us)) => Some(format!("seek {us}")),
            Action::Player(PlayerOp::Open { uri, title, artist }) => {
                Some(format!("open {uri}|{title}|{artist}"))
            }
            _ => None,
        })
        .collect()
}

/// Hands a message to a session as the other side would send it.
fn receive(c: &mut JamCore, text: &str) {
    let frames = JamCodec::new().encode(&json(text));
    for f in frames {
        c.handle_event_with(CoreEvent::DcRaw(f), &drawn());
    }
}

/// A host with a guest on its data channel.
fn hosting(gc: bool, dry_run: bool) -> JamCore {
    let mut c = a_core(dry_run);
    c.handle_cmd_with(UiCmd::Host { name: "wunder".into(), gc, code: None }, &drawn());
    match c.question() {
        Some(Question::Connect(id)) => assert_eq!(id, "QWERTY"),
        other => panic!("{other:?}"),
    }
    assert_eq!(c.shared().mode, Mode::Joining);
    c.resume(Answer::Connected(Ok(())));
    assert!(matches!(c.question(), Some(Question::Player)));
    c.resume(Answer::Player(None));
    c.handle_event_with(CoreEvent::PeerOpen("QWERTY".into()), &drawn());
    assert_eq!(c.shared().mode, Mode::Hosting);
    assert_eq!(c.shared().jam_id, "QWERTY");
    let offer = r#"{"type":"OFFER","src":"guest-id","payload":{"sdp":{"sdp":"x","type":"offer"},
        "connectionId":"dc_9"}}"#;
    c.handle_event_with(CoreEvent::SignalMessage(json(offer)), &drawn());
    match c.question() {
        Some(Question::Answer { connection_id, sdp }) => {
            assert_eq!(connection_id, "dc_9");
            assert_eq!(sdp, json(r#"{"sdp":"x","type":"offer"}"#));
        }
        other => panic!("{other:?}"),
    }
    c.resume(Answer::Answered(Answered::Done));
    c.handle_event_with(CoreEvent::DcHostChannel, &drawn());
    assert!(matches!(c.question(), Some(Question::Channel)));
    c.resume(Answer::Channel(true));
    c.handle_event_with(CoreEvent::DcOpen, &drawn());
    assert!(c.shared().connected);
    c.take_actions();
    c
}

/// A guest on a host's data channel.
fn guest(dry_run: bool) -> JamCore {
    let mut c = a_core(dry_run);
    c.handle_cmd_with(UiCmd::Join { code: "ABC123".into(), name: "listener".into() }, &drawn());
    assert!(matches!(c.question(), Some(Question::Player)));
    c.resume_with(Answer::Player(Some(playing("spotify:track:mine", "Mine", 1000))), &drawn());
    match c.question() {
        Some(Question::Connect(id)) => assert_eq!(id, drawn().uuid),
        other => panic!("{other:?}"),
    }
    c.resume(Answer::Connected(Ok(())));
    c.resume(Answer::Player(None));
    c.handle_event_with(CoreEvent::PeerOpen("x".into()), &drawn());
    match c.question() {
        Some(Question::Offer(id)) => assert_eq!(id, "dc_abcdefghijklmnop"),
        other => panic!("{other:?}"),
    }
    c.resume(Answer::Offered(Offered::Open));
    c.handle_event_with(CoreEvent::DcOpen, &drawn());
    let a = c.take_actions();
    assert_eq!(sent(&a), vec![json(r#"{"type":"JOIN","name":"listener","image":""}"#)]);
    assert_eq!(c.shared().mode, Mode::Guest);
    c
}

#[test]
fn the_first_look_at_the_player_is_shown() {
    let mut c = JamCore::new("cliamp", false, at(0));
    c.resume(Answer::Player(Some(playing("spotify:track:a", "A", 1500))));
    assert_eq!(c.shared().backend, "cliamp");
    assert_eq!(c.shared().progress_us, 1_500_000);
    assert!(c.shared().playing);
    assert_eq!(c.shared().now_playing.as_ref().unwrap().title, "A");
}

#[test]
fn a_host_is_known_by_its_code() {
    let mut c = a_core(false);
    c.handle_cmd_with(
        UiCmd::Host { name: "w".into(), gc: false, code: Some("a-b c123456789".into()) },
        &drawn(),
    );
    match c.question() {
        Some(Question::Connect(id)) => assert_eq!(id, "abc123"),
        other => panic!("{other:?}"),
    }
    assert_eq!(c.shared().jam_id, "abc123");
    c.handle_cmd_with(
        UiCmd::Host { name: "w".into(), gc: false, code: Some("---".into()) },
        &drawn(),
    );
    assert_eq!(c.shared().jam_id, "QWERTY");
}

#[test]
fn ids_are_drawn_at_random() {
    let mut c = a_core(false);
    c.handle_cmd(UiCmd::Host { name: "w".into(), gc: false, code: None });
    let id = c.shared().jam_id.clone();
    assert_eq!(id.len(), 6);
    assert!(id.chars().all(|c| c.is_ascii_uppercase() || c.is_ascii_digit()));
    c.handle_event(CoreEvent::SignalMessage(json(r#"{"type":"ID-TAKEN"}"#)));
    assert_eq!(c.shared().jam_id.len(), 6);
    assert_ne!(c.shared().jam_id, id);
}

#[test]
fn a_failed_connection_is_shown() {
    let mut c = a_core(false);
    c.handle_cmd_with(UiCmd::Host { name: "w".into(), gc: false, code: None }, &drawn());
    c.resume(Answer::Connected(Err("no threads".into())));
    assert_eq!(c.shared().mode, Mode::Idle);
    assert_eq!(c.shared().error.as_deref(), Some("signaling failed: no threads"));
}

#[test]
fn a_guest_is_welcomed() {
    let mut c = hosting(true, false);
    receive(&mut c, r#"{"type":"JOIN","name":"pal"}"#);
    assert!(matches!(c.question(), Some(Question::Player)));
    c.resume(Answer::Player(Some(playing("spotify:track:a", "A", 2500))));
    let m = sent(&c.take_actions());
    assert_eq!(m.len(), 3);
    assert_eq!(m[0].str_or("type", ""), "INIT");
    assert_eq!(m[0].str_or("host", ""), "wunder");
    assert_eq!(m[0].bool_at("gc"), Some(true));
    assert_eq!(m[0].scaled_at("progress", 1000), Some(2_500_000));
    assert_eq!(m[0].scaled_at("duration", 1000), Some(200_000_000));
    assert_eq!(m[0].get("np").unwrap().str_or("title", ""), "A");
    assert_eq!(m[1].str_or("type", ""), "PLAY");
    assert_eq!(m[1].str_or("uri", ""), "spotify:track:a");
    assert_eq!(m[1].int_at("ts"), Some(EPOCH as i64));
    assert_eq!(m[1].bool_at("paused"), Some(false));
    assert_eq!(m[2].array_at("members").unwrap().len(), 2);
    assert_eq!(c.shared().members[1].name, "pal");
    assert!(c.shared().members[0].is_host && !c.shared().members[1].is_host);
}

#[test]
fn a_guest_is_welcomed_without_player() {
    let mut c = hosting(false, false);
    receive(&mut c, r#"{"type":"JOIN"}"#);
    c.resume(Answer::Player(None));
    let m = sent(&c.take_actions());
    assert_eq!(m.len(), 2);
    assert_eq!(m[0].get("np"), Some(&Json::Null));
    assert_eq!(c.shared().members[1].name, "Listener");
}

#[test]
fn what_the_host_announces_the_guest_takes_over() {
    let mut h = hosting(true, false);
    let mut g = guest(false);
    receive(&mut h, r#"{"type":"SYNC"}"#);
    h.resume(Answer::Player(Some(paused("spotify:track:a", "A", 61_234))));
    for a in h.take_actions() {
        if let Action::Send { frames, .. } = a {
            for f in frames {
                g.handle_event_with(CoreEvent::DcRaw(f), &drawn());
            }
        }
    }
    assert_eq!(g.shared().now_playing.as_ref().unwrap().title, "A");
    assert_eq!(g.shared().progress_us, 61_234_000);
    assert!(!g.shared().playing);
    assert!(matches!(g.question(), Some(Question::Player)));
}

#[test]
fn a_second_guest_is_turned_away() {
    let mut c = hosting(false, false);
    c.handle_event_with(
        CoreEvent::SignalMessage(json(r#"{"type":"OFFER","src":"other","payload":{}}"#)),
        &drawn(),
    );
    assert!(c.question().is_none());
    assert!(c.shared().logs.last().unwrap().contains("another listener tried to join (other)"));
}

#[test]
fn a_guest_that_leaves_is_forgotten() {
    let mut c = hosting(false, false);
    receive(&mut c, r#"{"type":"JOIN","name":"pal"}"#);
    c.resume(Answer::Player(None));
    c.handle_event_with(
        CoreEvent::SignalMessage(json(r#"{"type":"LEAVE","src":"guest-id"}"#)),
        &drawn(),
    );
    assert!(!c.shared().connected);
    assert_eq!(c.shared().members.len(), 1);
    assert!(c.take_actions().iter().any(|a| matches!(a, Action::DropPeer)));
    let mut c = hosting(false, false);
    c.handle_event_with(
        CoreEvent::SignalMessage(json(r#"{"type":"LEAVE","src":"someone"}"#)),
        &drawn(),
    );
    assert!(c.shared().connected);
    c.handle_event_with(CoreEvent::DcClosed, &drawn());
    assert!(!c.shared().connected);
}

#[test]
fn the_guest_offers_and_accepts() {
    let mut c = a_core(false);
    c.handle_cmd_with(UiCmd::Join { code: "ABC123".into(), name: "l".into() }, &drawn());
    c.resume_with(Answer::Player(None), &drawn());
    c.resume(Answer::Connected(Ok(())));
    c.resume(Answer::Player(None));
    c.handle_event_with(CoreEvent::PeerOpen("x".into()), &drawn());
    c.resume(Answer::Offered(Offered::Open));
    c.handle_event_with(
        CoreEvent::LocalDescription(json(r#"{"type":"offer","sdp":"v=0"}"#)),
        &drawn(),
    );
    c.handle_event_with(
        CoreEvent::LocalCandidate("candidate:1".into(), "0".into()),
        &drawn(),
    );
    let a = c.take_actions();
    match &a[0] {
        Action::Signal(v) => assert_eq!(
            *v,
            json(
                r#"{"type":"OFFER","dst":"ABC123","payload":{
                "sdp":{"type":"offer","sdp":"v=0"},"type":"data",
                "connectionId":"dc_abcdefghijklmnop","metadata":{},
                "label":"dc_abcdefghijklmnop","reliable":true,"serialization":"binary"}}"#
            )
        ),
        other => panic!("{other:?}"),
    }
    match &a[1] {
        Action::Signal(v) => assert_eq!(
            *v,
            json(
                r#"{"type":"CANDIDATE","dst":"ABC123","payload":{"type":"data",
                "connectionId":"dc_abcdefghijklmnop","candidate":{"candidate":"candidate:1",
                "sdpMid":"0","sdpMLineIndex":0}}}"#
            )
        ),
        other => panic!("{other:?}"),
    }
    c.handle_event_with(
        CoreEvent::SignalMessage(json(r#"{"type":"ANSWER","payload":{"sdp":{"sdp":"y"}}}"#)),
        &drawn(),
    );
    match c.question() {
        Some(Question::Accept(sdp)) => assert_eq!(sdp, json(r#"{"sdp":"y"}"#)),
        other => panic!("{other:?}"),
    }
    c.resume(Answer::Accepted(Err("bad sdp".into())));
    assert!(c.shared().logs.last().unwrap().ends_with("accept answer failed: bad sdp"));
    c.handle_event_with(
        CoreEvent::SignalMessage(json(
            r#"{"type":"CANDIDATE","payload":{"candidate":{"candidate":"c1","sdpMid":"1"}}}"#,
        )),
        &drawn(),
    );
    c.handle_event_with(
        CoreEvent::SignalMessage(json(r#"{"type":"CANDIDATE","payload":{"candidate":"c2"}}"#)),
        &drawn(),
    );
    let a = c.take_actions();
    match (&a[0], &a[1]) {
        (
            Action::AddCandidate { candidate: x, mid: m },
            Action::AddCandidate { candidate: y, mid: n },
        ) => {
            assert_eq!((x.as_str(), m.as_str()), ("c1", "1"));
            assert_eq!((y.as_str(), n.as_str()), ("c2", "0"));
        }
        other => panic!("{other:?}"),
    }
}

#[test]
fn the_host_answers_to_the_guest() {
    let mut c = hosting(false, false);
    c.handle_event_with(
        CoreEvent::LocalDescription(json(r#"{"type":"answer","sdp":"v=0"}"#)),
        &drawn(),
    );
    match &c.take_actions()[0] {
        Action::Signal(v) => assert_eq!(
            *v,
            json(
                r#"{"type":"ANSWER","dst":"guest-id","payload":{
                "sdp":{"type":"answer","sdp":"v=0"},"type":"data","connectionId":"dc_9"}}"#
            )
        ),
        other => panic!("{other:?}"),
    }
}

#[test]
fn messages_of_the_server_are_dealt_with() {
    let mut c = a_core(false);
    c.handle_event_with(
        CoreEvent::SignalMessage(json(r#"{"type":"OPEN","payload":{"peer":"me"}}"#)),
        &drawn(),
    );
    c.handle_event_with(
        CoreEvent::SignalMessage(json(r#"{"type":"ERROR","payload":{"type":"t","msg":"m"}}"#)),
        &drawn(),
    );
    c.handle_event_with(
        CoreEvent::SignalMessage(json(r#"{"type":"ERROR","payload":{"msg":"only"}}"#)),
        &drawn(),
    );
    c.handle_event_with(CoreEvent::SignalMessage(json(r#"{"type":"EXPIRE"}"#)), &drawn());
    let a = c.take_actions();
    match (&a[0], &a[1], &a[2]) {
        (Action::RaiseOpen(id), Action::RaiseError(e), Action::RaiseError(f)) => {
            assert_eq!(id, "me");
            assert_eq!(e, "t: m");
            assert_eq!(f, "only");
        }
        other => panic!("{other:?}"),
    }
    assert!(c.shared().logs.last().unwrap().ends_with(" offer expired"));
}

#[test]
fn an_error_while_joining_ends_the_session() {
    let mut c = a_core(false);
    c.handle_cmd_with(UiCmd::Join { code: "ABC123".into(), name: "l".into() }, &drawn());
    c.resume_with(Answer::Player(None), &drawn());
    c.resume(Answer::Connected(Ok(())));
    c.resume(Answer::Player(None));
    c.handle_event_with(CoreEvent::PeerError("peer-unavailable".into()), &drawn());
    assert_eq!(c.shared().mode, Mode::Idle);
    assert_eq!(c.shared().error.as_deref(), Some("peer-unavailable"));
    assert!(c.take_actions().iter().any(|a| matches!(a, Action::CloseSignaling)));
    let mut c = guest(false);
    c.handle_event_with(CoreEvent::PeerError("x".into()), &drawn());
    assert_eq!(c.shared().mode, Mode::Guest);
}

#[test]
fn failed_offers_are_logged() {
    let mut c = a_core(false);
    c.handle_cmd_with(UiCmd::Join { code: "ABC123".into(), name: "l".into() }, &drawn());
    c.resume_with(Answer::Player(None), &drawn());
    c.resume(Answer::Connected(Ok(())));
    c.resume(Answer::Player(None));
    c.handle_event_with(CoreEvent::PeerOpen("x".into()), &drawn());
    c.resume(Answer::Offered(Offered::NoPeer("n".into())));
    assert!(c.shared().logs.last().unwrap().ends_with("webrtc init failed: n"));
    c.handle_event_with(CoreEvent::PeerOpen("x".into()), &drawn());
    c.resume(Answer::Offered(Offered::Failed { channel: false, error: "o".into() }));
    assert!(c.shared().logs.last().unwrap().ends_with("offer failed: o"));
}

#[test]
fn failed_answers_are_logged() {
    let offer = r#"{"type":"OFFER","src":"g","payload":{"sdp":{}}}"#;
    let mut c = a_core(false);
    c.handle_cmd_with(UiCmd::Host { name: "w".into(), gc: false, code: None }, &drawn());
    c.resume(Answer::Connected(Ok(())));
    c.resume(Answer::Player(None));
    c.handle_event_with(CoreEvent::SignalMessage(json(offer)), &drawn());
    match c.question() {
        Some(Question::Answer { connection_id, .. }) => assert_eq!(connection_id, "dc_guest"),
        other => panic!("{other:?}"),
    }
    c.resume(Answer::Answered(Answered::NoPeer("n".into())));
    assert!(c.shared().logs.last().unwrap().ends_with("webrtc init failed: n"));
    c.handle_event_with(CoreEvent::SignalMessage(json(offer)), &drawn());
    c.resume(Answer::Answered(Answered::Failed("bad sdp".into())));
    assert!(c.shared().logs.last().unwrap().ends_with("answer failed: bad sdp"));
}

#[test]
fn a_join_that_hangs_is_given_up() {
    let mut c = a_core(false);
    c.handle_cmd_with(UiCmd::Join { code: "ABC123".into(), name: "l".into() }, &drawn());
    c.resume_with(Answer::Player(None), &drawn());
    c.resume(Answer::Connected(Ok(())));
    c.resume(Answer::Player(None));
    c.set_clock(at(5999));
    c.tick_with(&drawn());
    assert_eq!(c.shared().mode, Mode::Joining);
    c.set_clock(at(6000));
    c.tick_with(&drawn());
    assert_eq!(c.shared().mode, Mode::Idle);
    assert_eq!(
        c.shared().error.as_deref(),
        Some("Jam not found or unreachable — check the code and try again")
    );
}

#[test]
fn init_becomes_the_target() {
    let mut c = guest(false);
    receive(
        &mut c,
        r#"{"type":"INIT","host":"Kyz","gc":true,"queue":[{"uri":"q1","title":"Q"},{"no":1}],
        "np":{"uri":"spotify:track:a","title":"A","artist":"X"},"progress":1000.5,
        "duration":180000,"playing":true}"#,
    );
    let s = c.shared();
    assert_eq!(s.host_name, "Kyz");
    assert!(s.gc && s.connected && s.playing);
    assert_eq!(s.queue.len(), 1);
    assert_eq!(s.progress_us, 1_000_500);
    assert_eq!(s.duration_us, 180_000_000);
    assert!(s.logs.last().unwrap().ends_with("in a Jam with “Kyz” (guest controls on)"));
    c.set_clock(at(2500));
    c.tick_with(&drawn());
    // the lock looks at the player
    assert!(matches!(c.question(), Some(Question::Player)));
    c.resume(Answer::Player(Some(playing("spotify:track:a", "A", 3000))));
    assert_eq!(c.shared().progress_us, 1_000_500 + 2_500_000);
    assert!(ops(&c.take_actions()).is_empty());
}

#[test]
fn init_has_defaults() {
    let mut c = guest(false);
    receive(&mut c, r#"{"type":"INIT"}"#);
    assert_eq!(c.shared().host_name, "Host");
    assert!(!c.shared().gc);
    assert!(c.shared().logs.last().unwrap().ends_with("in a Jam with “Host”"));
}

#[test]
fn a_new_song_is_opened_and_sought() {
    let mut c = guest(false);
    receive(&mut c, &format!(r#"{{"type":"PONG","ts":{}}}"#, EPOCH - 80));
    assert_eq!(c.shared().ping_ms, 80);
    receive(
        &mut c,
        r#"{"type":"PLAY","uri":"spotify:track:a","pos":10000,"paused":true,
        "np":{"uri":"spotify:track:a","title":"A","artist":"X"}}"#,
    );
    c.resume(Answer::Player(Some(playing("spotify:track:mine", "Mine", 0))));
    assert_eq!(ops(&c.take_actions()), vec!["open spotify:track:a|A|X"]);
    // not opened yet
    c.tick_with(&drawn());
    c.resume(Answer::Player(Some(playing("spotify:track:mine", "Mine", 0))));
    assert!(ops(&c.take_actions()).is_empty());
    // opened: position, half the ping and 350 ms, and paused
    c.tick_with(&drawn());
    c.resume(Answer::Player(Some(playing("spotify:track:a", "A", 0))));
    assert_eq!(ops(&c.take_actions()), vec!["seek 10390000", "pause"]);
    // over
    c.tick_with(&drawn());
    assert!(c.question().is_none());
    c.tick_with(&drawn());
    assert!(c.question().is_none());
}

#[test]
fn a_song_that_does_not_open_is_sought_anyway() {
    let mut c = guest(false);
    receive(&mut c, r#"{"type":"PLAY","uri":"spotify:track:a","pos":10000}"#);
    c.resume(Answer::Player(None));
    assert_eq!(ops(&c.take_actions()), vec!["open spotify:track:a||"]);
    c.set_clock(at(4501));
    c.tick_with(&drawn());
    c.resume(Answer::Player(Some(playing("spotify:track:other", "O", 0))));
    assert!(ops(&c.take_actions()).contains(&"seek 10350000".to_string()));
}

#[test]
fn a_song_in_place_is_nudged() {
    let play = r#"{"type":"PLAY","uri":"spotify:track:a","pos":10000,"paused":false}"#;
    let cases = vec![
        (playing("spotify:track:a", "A", 10_600), vec![]),
        (playing("spotify:track:a", "A", 10_651), vec!["seek 10000000"]),
        (paused("spotify:track:a", "A", 10_000), vec!["play"]),
        (paused("spotify:track:a", "A", 0), vec!["seek 10000000", "play"]),
    ];
    for (st, want) in cases {
        let mut c = guest(false);
        receive(&mut c, play);
        c.resume(Answer::Player(Some(st)));
        assert_eq!(ops(&c.take_actions()), want);
    }
    let mut c = guest(false);
    receive(&mut c, r#"{"type":"PLAY","uri":"spotify:track:a","pos":10000,"paused":true}"#);
    c.resume(Answer::Player(Some(playing("spotify:track:a", "A", 10_000))));
    assert_eq!(ops(&c.take_actions()), vec!["pause"]);
}

#[test]
fn nothing_is_opened_without_uri() {
    let mut c = guest(false);
    receive(&mut c, r#"{"type":"PLAY","uri":"","pos":0,"np":{"uri":"","title":"T"}}"#);
    c.resume(Answer::Player(Some(playing("spotify:track:mine", "Mine", 0))));
    assert!(ops(&c.take_actions()).is_empty());
    // by title it is the same song
    receive(&mut c, r#"{"type":"PLAY","uri":"","pos":0,"np":{"uri":"","title":"T"}}"#);
    c.resume(Answer::Player(Some(paused("spotify:track:mine", "T", 0))));
    assert_eq!(ops(&c.take_actions()), vec!["play"]);
}

#[test]
fn pause_seek_and_play_state_are_followed() {
    let mut c = guest(false);
    receive(&mut c, r#"{"type":"PS","p":true,"pos":5000.25}"#);
    assert!(c.shared().playing);
    assert_eq!(c.shared().progress_us, 5_000_250);
    receive(&mut c, r#"{"type":"PS","p":true}"#);
    assert_eq!(c.shared().progress_us, 5_000_250);
    receive(&mut c, r#"{"type":"SEEK","pos":7000}"#);
    receive(&mut c, r#"{"type":"PAUSE"}"#);
    assert_eq!(ops(&c.take_actions()), vec!["seek 7000000", "pause"]);
    assert!(!c.shared().playing);
    assert!(c.shared().logs.iter().any(|l| l.ends_with(" seek → 7000ms")));
}

#[test]
fn drift_is_corrected() {
    let start = |c: &mut JamCore| {
        receive(c, r#"{"type":"PLAY","uri":"spotify:track:a","pos":0,"paused":false}"#);
        c.resume(Answer::Player(Some(playing("spotify:track:a", "A", 0))));
        c.take_actions();
    };
    // too soon after the song
    let mut c = guest(false);
    start(&mut c);
    c.set_clock(at(1999));
    receive(&mut c, r#"{"type":"SYNC_TICK","pos":1999}"#);
    assert!(c.question().is_none());
    // past the jump threshold at once
    c.set_clock(at(10_000));
    receive(&mut c, &format!(r#"{{"type":"SYNC_TICK","pos":10000,"ts":{}}}"#, EPOCH + 10_000));
    c.resume(Answer::Player(Some(playing("spotify:track:a", "A", 9_000))));
    assert_eq!(ops(&c.take_actions()), vec!["seek 10000000"]);
    assert!(c.shared().logs.last().unwrap().ends_with(" drift 1000ms — corrected"));
    // past the deadband the second time
    let mut c = guest(false);
    start(&mut c);
    for (ms, want) in [(10_000u64, vec![]), (15_000, vec!["seek 15000000"])] {
        c.set_clock(at(ms));
        receive(&mut c, &format!(r#"{{"type":"SYNC_TICK","pos":{ms},"ts":{}}}"#, EPOCH + ms));
        c.resume(Answer::Player(Some(playing("spotify:track:a", "A", ms as i64 - 300))));
        assert_eq!(ops(&c.take_actions()), want);
    }
    // under the deadband never
    let mut c = guest(false);
    start(&mut c);
    for ms in [10_000u64, 15_000, 20_000] {
        c.set_clock(at(ms));
        receive(&mut c, &format!(r#"{{"type":"SYNC_TICK","pos":{ms},"ts":{}}}"#, EPOCH + ms));
        c.resume(Answer::Player(Some(playing("spotify:track:a", "A", ms as i64 - 100))));
        assert!(ops(&c.take_actions()).is_empty());
    }
    // off
    let mut c = guest(false);
    c.handle_cmd(UiCmd::SetDrift { enabled: false, deadband_us: 0, jump_us: 0 });
    start(&mut c);
    c.set_clock(at(10_000));
    receive(&mut c, &format!(r#"{{"type":"SYNC_TICK","pos":10000,"ts":{}}}"#, EPOCH + 10_000));
    c.resume(Answer::Player(Some(playing("spotify:track:a", "A", 1_000))));
    assert!(ops(&c.take_actions()).is_empty());
}

#[test]
fn drift_settings_are_shown() {
    let mut c = a_core(false);
    c.handle_cmd(UiCmd::SetDrift { enabled: true, deadband_us: 300_000, jump_us: 100_000 });
    assert_eq!(c.shared().drift_deadband_us, 300_000);
    assert_eq!(c.shared().drift_jump_us, 300_000);
    assert!(c.shared().logs.last().unwrap().ends_with(
        "drift correction: on (deadband 300ms, jump 100ms)"
    ));
    c.handle_cmd(UiCmd::SetDrift { enabled: false, deadband_us: -5, jump_us: -5 });
    assert_eq!(c.shared().drift_jump_us, 0);
    assert!(c.shared().logs.last().unwrap().ends_with(
        "drift correction: manual only (deadband 0ms, jump 0ms)"
    ));
}

/// A guest that plays the host's song, past the time to settle.
fn settled(gc: bool) -> JamCore {
    let mut c = guest(false);
    receive(&mut c, &format!(r#"{{"type":"GCTRL","on":{gc}}}"#));
    receive(
        &mut c,
        r#"{"type":"PLAY","uri":"spotify:track:a","pos":0,"paused":false,
        "np":{"uri":"spotify:track:a","title":"A","artist":"X"}}"#,
    );
    c.resume(Answer::Player(Some(playing("spotify:track:a", "A", 0))));
    c.set_clock(at(6000));
    c.tick_with(&drawn());
    c.resume(Answer::Player(Some(playing("spotify:track:a", "A", 6000))));
    c.take_actions();
    c.set_clock(at(8000));
    c.tick_with(&drawn());
    assert!(matches!(c.question(), Some(Question::Player)));
    c
}

#[test]
fn a_guest_is_locked_to_the_host() {
    let mut c = settled(false);
    c.resume(Answer::Player(Some(playing("spotify:track:b", "B", 1000))));
    assert!(c.shared().logs.last().unwrap().ends_with("🔒 locked to Jam (was B)"));
    c.resume(Answer::Player(Some(playing("spotify:track:b", "B", 1000))));
    assert_eq!(ops(&c.take_actions()), vec!["open spotify:track:a|A|X"]);
    assert_eq!(c.shared().progress_us, 8_000_000);
}

#[test]
fn a_pick_is_asked_of_the_host() {
    let mut c = settled(true);
    c.resume(Answer::Player(Some(playing("spotify:track:b", "B", 1000))));
    let a = c.take_actions();
    assert!(ops(&a).is_empty());
    assert!(sent(&a).contains(&json(r#"{"type":"CMD","a":"playuri","uri":"spotify:track:b"}"#)));
    // it waits three seconds for the host
    c.set_clock(at(10_000));
    c.tick_with(&drawn());
    c.resume(Answer::Player(Some(playing("spotify:track:b", "B", 3000))));
    assert!(c.question().is_none());
    // and is locked afterwards
    c.set_clock(at(12_000));
    c.tick_with(&drawn());
    c.resume(Answer::Player(Some(playing("spotify:track:b", "B", 5000))));
    assert!(matches!(c.question(), Some(Question::Player)));
}

#[test]
fn the_song_from_before_is_no_pick() {
    let mut c = guest(false);
    receive(&mut c, r#"{"type":"GCTRL","on":true}"#);
    receive(&mut c, r#"{"type":"PLAY","uri":"spotify:track:a","pos":0}"#);
    c.resume(Answer::Player(None));
    c.take_actions();
    c.set_clock(at(20_000));
    c.tick_with(&drawn());
    c.resume(Answer::Player(Some(playing("spotify:track:mine", "Mine", 1000))));
    c.take_actions();
    // the lock of this tick
    c.resume(Answer::Player(Some(playing("spotify:track:mine", "Mine", 1000))));
    let a = c.take_actions();
    assert!(!kinds(&a).contains(&"CMD".to_string()));
    assert!(c.shared().logs.last().unwrap().contains("locked to Jam"));
}

#[test]
fn a_song_that_ran_out_asks_for_the_host() {
    let mut c = settled(true);
    let mut end = playing("spotify:track:b", "B", 198_000);
    end.duration_us = 200_000_000;
    c.resume(Answer::Player(Some(end)));
    let a = c.take_actions();
    assert!(ops(&a).is_empty());
    assert_eq!(kinds(&a).last().map(String::as_str), Some("SYNC"));
}

#[test]
fn a_guest_reconnects_three_times() {
    let mut c = guest(false);
    for n in 1..=3u64 {
        c.set_clock(at(10_000 * n));
        c.handle_event_with(CoreEvent::DcClosed, &drawn());
        assert!(c.shared().logs.last().unwrap().contains(&format!("reconnecting ({n}/3)")));
        c.set_clock(at(10_000 * n + 1500 * n - 1));
        c.tick_with(&drawn());
        assert!(!matches!(c.question(), Some(Question::Connect(_))));
        while c.question().is_some() {
            c.resume(Answer::Player(None));
        }
        c.set_clock(at(10_000 * n + 1500 * n));
        c.tick_with(&drawn());
        match c.question() {
            Some(Question::Connect(id)) => assert_eq!(id, drawn().uuid),
            other => panic!("{other:?}"),
        }
        c.resume(Answer::Connected(Ok(())));
        assert!(c.shared().logs.last().unwrap().ends_with("reconnecting to Jam ABC123…"));
        while c.question().is_some() {
            c.resume(Answer::Player(None));
        }
    }
    c.handle_event_with(CoreEvent::DcClosed, &drawn());
    assert_eq!(c.shared().mode, Mode::Idle);
    assert_eq!(c.shared().error.as_deref(), Some("lost the host"));
}

#[test]
fn a_lost_signal_is_found_again() {
    let mut c = hosting(false, false);
    c.set_clock(at(1000));
    c.handle_event_with(CoreEvent::SignalClosed, &drawn());
    assert!(c.take_actions().iter().any(|a| matches!(a, Action::DropSignaling)));
    c.set_clock(at(3000));
    c.tick_with(&drawn());
    match c.question() {
        Some(Question::Connect(id)) => assert_eq!(id, "QWERTY"),
        other => panic!("{other:?}"),
    }
    c.resume(Answer::Connected(Ok(())));
    assert!(c.shared().logs.last().unwrap().ends_with("re-registered Jam QWERTY"));
    // an idle client does not care
    let mut c = a_core(false);
    c.handle_event_with(CoreEvent::SignalClosed, &drawn());
    c.set_clock(at(60_000));
    c.tick_with(&drawn());
    assert!(c.question().is_none());
}

#[test]
fn leaving_is_final() {
    let mut c = guest(false);
    c.handle_event_with(CoreEvent::SignalClosed, &drawn());
    c.handle_cmd(UiCmd::Leave);
    let a = c.take_actions();
    assert!(a.iter().any(|a| matches!(a, Action::Goodbye(_))));
    assert!(a.iter().any(|a| matches!(a, Action::DropPeer)));
    assert_eq!(c.shared().mode, Mode::Idle);
    assert!(c.shared().logs.last().unwrap().ends_with("left the Jam"));
    c.set_clock(at(60_000));
    c.tick_with(&drawn());
    assert!(c.question().is_none());
}

#[test]
fn the_goodbye_says_close() {
    let mut c = guest(false);
    c.handle_cmd(UiCmd::Leave);
    for a in c.take_actions() {
        if let Action::Goodbye(frame) = a {
            let (v, n) = unpack(&frame).unwrap();
            assert_eq!(v.to_json(), json(r#"{"__peerData":{"type":"close"}}"#));
            assert_eq!(n, frame.len());
            // the other side takes it for no message
            assert_eq!(JamCodec::new().decode(&frame), None);
            return;
        }
    }
    panic!("no goodbye");
}

#[test]
fn a_kick_ends_the_session() {
    let mut c = guest(false);
    receive(&mut c, r#"{"type":"KICK"}"#);
    assert_eq!(c.shared().mode, Mode::Idle);
    assert!(c.shared().logs.iter().any(|l| l.ends_with("removed from the Jam by the host :c")));
}

#[test]
fn pings_are_echoed() {
    let mut c = hosting(false, false);
    receive(&mut c, r#"{"type":"PING","ts":-7}"#);
    receive(&mut c, r#"{"type":"PING"}"#);
    assert_eq!(sent(&c.take_actions()), vec![json(r#"{"type":"PONG","ts":-7}"#)]);
}

#[test]
fn a_guest_pings_and_asks() {
    let mut c = guest(false);
    c.set_clock(at(5000));
    c.tick_with(&drawn());
    let m = sent(&c.take_actions());
    assert_eq!(m, vec![json(&format!(r#"{{"type":"PING","ts":{}}}"#, EPOCH + 5000))]);
    c.set_clock(at(6000));
    c.tick_with(&drawn());
    assert_eq!(kinds(&c.take_actions()), vec!["SYNC"]);
    // not again so soon after the user asked
    c.set_clock(at(8000));
    c.handle_cmd(UiCmd::SyncNow);
    assert_eq!(kinds(&c.take_actions()), vec!["SYNC"]);
    c.set_clock(at(12_000));
    c.tick_with(&drawn());
    assert!(!kinds(&c.take_actions()).contains(&"SYNC".to_string()));
}

#[test]
fn guests_pass_over_requests() {
    let mut c = guest(false);
    for m in [
        r#"{"type":"JOIN","name":"x"}"#,
        r#"{"type":"SYNC"}"#,
        r#"{"type":"ADD_Q","uri":"spotify:track:x"}"#,
        r#"{"type":"RM_Q","uri":"x"}"#,
        r#"{"type":"MOVE_Q","from":0,"to":1}"#,
        r#"{"type":"CMD","a":"play"}"#,
        r#"{"type":"NONSENSE"}"#,
        r#"[1,2]"#,
    ] {
        receive(&mut c, m);
        assert!(c.question().is_none());
        assert!(c.take_actions().is_empty());
    }
}

#[test]
fn members_and_queue_are_shown() {
    let mut c = guest(false);
    receive(
        &mut c,
        r#"{"type":"MEMBERS","members":[{"id":"host","name":"H","isHost":true},{"id":"g"}]}"#,
    );
    assert_eq!(c.shared().members[0].name, "H");
    assert_eq!(c.shared().members[1].name, "Listener");
    receive(&mut c, r#"{"type":"Q","queue":[{"uri":"a"},{"uri":"b","title":"B"}]}"#);
    assert_eq!(c.shared().queue.len(), 2);
    receive(&mut c, r#"{"type":"Q"}"#);
    assert_eq!(c.shared().queue.len(), 2);
}

#[test]
fn commands_need_permission() {
    let mut c = hosting(false, false);
    receive(&mut c, r#"{"type":"CMD","a":"play"}"#);
    assert!(c.take_actions().is_empty());
    receive(&mut c, r#"{"type":"ADD_Q","uri":"u","title":"t"}"#);
    assert!(c.question().is_none());
    assert!(c.shared().queue.is_empty());
    assert!(c.take_actions().is_empty());
    c.handle_cmd(UiCmd::SetGc(true));
    assert_eq!(sent(&c.take_actions()), vec![json(r#"{"type":"GCTRL","on":true}"#)]);
    assert!(c.shared().gc);
    receive(&mut c, r#"{"type":"CMD","a":"play"}"#);
    receive(&mut c, r#"{"type":"CMD","a":"pause"}"#);
    receive(&mut c, r#"{"type":"CMD","a":"seek","pos":1500}"#);
    receive(&mut c, r#"{"type":"CMD","a":"seek"}"#);
    receive(&mut c, r#"{"type":"CMD","a":"next"}"#);
    receive(&mut c, r#"{"type":"CMD","a":"back"}"#);
    assert_eq!(ops(&c.take_actions()), vec!["play", "pause", "seek 1500000", "next"]);
}

#[test]
fn a_requested_song_is_looked_up_and_played() {
    let mut c = hosting(true, false);
    receive(&mut c, r#"{"type":"CMD","a":"playuri","uri":"spotify:track:abc"}"#);
    match c.question() {
        Some(Question::Fetch(url)) => assert_eq!(
            url,
            "https://open.spotify.com/oembed?url=spotify%3Atrack%3Aabc"
        ),
        other => panic!("{other:?}"),
    }
    c.resume(Answer::Fetched(Ok(json(r#"{"title":"Song","thumbnail_url":"http://art"}"#))));
    assert_eq!(ops(&c.take_actions()), vec!["open spotify:track:abc|Song|"]);
    // it is looked up once
    receive(&mut c, r#"{"type":"CMD","a":"playuri","uri":"spotify:track:abc"}"#);
    assert!(c.question().is_none());
    assert_eq!(ops(&c.take_actions()), vec!["open spotify:track:abc|Song|"]);
    // and only where it is of the catalogue
    receive(&mut c, r#"{"type":"CMD","a":"playuri","uri":"file:///x"}"#);
    assert_eq!(ops(&c.take_actions()), vec!["open file:///x||"]);
}

#[test]
fn a_lookup_has_a_second_way() {
    let mut c = hosting(true, false);
    let ask = r#"{"type":"CMD","a":"playuri","uri":"spotify:track:abc"}"#;
    receive(&mut c, ask);
    c.resume(Answer::Fetched(Err(FetchError::Request("timeout".into()))));
    assert!(c.shared().logs.last().unwrap().ends_with("oembed: request failed: timeout"));
    match c.question() {
        Some(Question::Curl(url)) => assert!(url.ends_with("%3Aabc")),
        other => panic!("{other:?}"),
    }
    c.resume(Answer::of_output(Some(b"not found".to_vec())));
    assert!(c
        .shared()
        .logs
        .iter()
        .any(|l| l.ends_with("oembed: could not resolve spotify:track:abc")));
    assert_eq!(ops(&c.take_actions()), vec!["open spotify:track:abc||"]);
    receive(&mut c, ask);
    c.resume(Answer::Fetched(Err(FetchError::Parse("eof".into()))));
    assert!(c.shared().logs.last().unwrap().ends_with("oembed: parse failed: eof"));
    c.resume(Answer::of_output(Some(br#"{"title":"T"}"#.to_vec())));
    assert!(c.shared().logs.iter().any(|l| l.ends_with("oembed: resolved via curl fallback")));
    assert_eq!(ops(&c.take_actions()), vec!["open spotify:track:abc|T|"]);
}

#[test]
fn songs_are_queued() {
    let mut c = hosting(true, false);
    receive(
        &mut c,
        r#"{"type":"ADD_Q","uri":"spotify:track:1","title":"One","addedBy":{"name":"pal"}}"#,
    );
    match c.question() {
        Some(Question::Enqueue { uri, title, .. }) => {
            assert_eq!((uri.as_str(), title.as_str()), ("spotify:track:1", "One"));
        }
        other => panic!("{other:?}"),
    }
    c.resume(Answer::Enqueued(false));
    assert!(c.shared().logs.last().unwrap().ends_with("queue += One (from pal) — 1 up next"));
    assert_eq!(kinds(&c.take_actions()), vec!["Q"]);
    // something plays already
    c.resume(Answer::Player(Some(playing("spotify:track:z", "Z", 0))));
    assert!(c.take_actions().is_empty());
    receive(&mut c, r#"{"type":"ADD_Q","uri":"spotify:track:2","title":"Two"}"#);
    c.resume(Answer::Enqueued(false));
    // nothing plays: the first song starts
    c.resume(Answer::Player(Some(paused("", "", 0))));
    assert_eq!(ops(&c.take_actions()), vec!["open spotify:track:1|One|"]);
    assert_eq!(c.shared().queue.len(), 1);
    // a player with a queue of its own keeps playing by itself
    receive(&mut c, r#"{"type":"ADD_Q","uri":"spotify:track:3","title":"Three"}"#);
    c.resume(Answer::Enqueued(true));
    assert!(c.question().is_none());
    assert!(c.shared().logs.last().unwrap().ends_with(
        "queue += Three (from guest) — 2 up next (player queue)"
    ));
    c.take_actions();
    c.handle_cmd(UiCmd::Next);
    assert_eq!(ops(&c.take_actions()), vec!["next"]);
}

#[test]
fn a_queued_song_without_title_is_looked_up() {
    let mut c = hosting(true, false);
    receive(&mut c, r#"{"type":"ADD_Q","uri":"spotify:track:1"}"#);
    c.resume(Answer::Fetched(Ok(json(r#"{"title":"One","thumbnail_url":"http://art"}"#))));
    c.resume(Answer::Enqueued(false));
    c.resume(Answer::Player(None));
    assert_eq!(c.shared().queue[0].title, "One");
    assert_eq!(c.shared().queue[0].art_url, "http://art");
}

fn queue(c: &JamCore) -> Vec<String> {
    c.shared().queue.iter().map(|t| t.uri.clone()).collect()
}

/// A host with a queue of four songs.
fn with_queue() -> JamCore {
    let mut c = hosting(true, false);
    for u in ["a", "b", "c", "b"] {
        receive(&mut c, &format!(r#"{{"type":"ADD_Q","uri":"{u}","title":"T{u}"}}"#));
        c.resume(Answer::Enqueued(false));
        c.resume(Answer::Player(None));
    }
    c.take_actions();
    c
}

#[test]
fn the_queue_is_changed() {
    let mut c = with_queue();
    assert_eq!(queue(&c), vec!["a", "b", "c", "b"]);
    receive(&mut c, r#"{"type":"MOVE_Q","from":0,"to":2}"#);
    assert_eq!(queue(&c), vec!["b", "c", "a", "b"]);
    receive(&mut c, r#"{"type":"MOVE_Q","from":1,"to":99}"#);
    assert_eq!(queue(&c), vec!["b", "a", "b", "c"]);
    receive(&mut c, r#"{"type":"MOVE_Q","from":9,"to":0}"#);
    assert_eq!(queue(&c), vec!["b", "a", "b", "c"]);
    receive(&mut c, r#"{"type":"RM_Q","uri":"b"}"#);
    assert_eq!(queue(&c), vec!["a", "c"]);
    receive(&mut c, r#"{"type":"RM_Q"}"#);
    assert_eq!(kinds(&c.take_actions()), vec!["Q", "Q", "Q"]);
    c.handle_cmd(UiCmd::Next);
    assert_eq!(ops(&c.take_actions()), vec!["open a|Ta|"]);
    c.handle_cmd(UiCmd::Next);
    assert_eq!(ops(&c.take_actions()), vec!["open c|Tc|"]);
    c.handle_cmd(UiCmd::Next);
    assert_eq!(ops(&c.take_actions()), vec!["next"]);
}

/// Lets a host look at its player.
fn watch(c: &mut JamCore, ms: u64, st: PlayerState) -> Vec<Json> {
    c.set_clock(at(ms));
    c.tick_with(&drawn());
    assert!(matches!(c.question(), Some(Question::Player)));
    c.resume(Answer::Player(Some(st)));
    while c.question().is_some() {
        c.resume(Answer::Player(None));
    }
    sent(&c.take_actions())
}

#[test]
fn a_host_tells_what_changes() {
    let mut c = with_queue();
    // the first look tells nothing
    let m = watch(&mut c, 400, playing("spotify:track:x", "X", 1000));
    assert!(m.is_empty());
    assert_eq!(c.shared().now_playing.as_ref().unwrap().title, "X");
    // the same song tells nothing
    assert!(watch(&mut c, 800, playing("spotify:track:x", "X", 1400)).is_empty());
    // a pause
    let m = watch(&mut c, 1200, paused("spotify:track:x", "X", 1800));
    assert_eq!(m, vec![json(r#"{"type":"PAUSE"}"#)]);
    // going on
    let m = watch(&mut c, 1600, playing("spotify:track:x", "X", 1800));
    assert_eq!(m[0].str_or("type", ""), "PLAY");
    assert_eq!(m[0].scaled_at("pos", 1000), Some(1_800_000));
    // another song, which stands in the queue
    let m = watch(&mut c, 1950, playing("b", "Tb", 50_000));
    assert_eq!(m.last().unwrap().get("pos"), Some(&Json::Number(Number::PosInt(0))));
    assert_eq!(m.last().unwrap().str_or("uri", ""), "b");
    assert_eq!(queue(&c), vec!["c", "b"]);
    // the queue learns the artist of the song
    assert_eq!(c.shared().queue[1].artist, "the artist");
    assert_eq!(c.shared().queue[0].artist, "");
    // the stale position of the song before is not believed
    assert_eq!(c.shared().progress_us, 0);
    // silence
    let m = watch(&mut c, 2300, paused("", "", 0));
    assert_eq!(m[0], json(r#"{"type":"PAUSE"}"#));
}

#[test]
fn a_uri_that_was_found_out_is_no_new_song() {
    let mut c = hosting(true, false);
    watch(&mut c, 400, playing("", "T", 1000));
    let m = watch(&mut c, 800, playing("", "U", 0));
    assert_eq!(m[0].str_or("uri", "?"), "");
    assert_eq!(m[0].get("np").unwrap().str_or("title", ""), "U");
    let m = watch(&mut c, 1200, playing("spotify:track:u", "U", 400));
    assert_eq!(m[0].str_or("uri", ""), "spotify:track:u");
    assert_eq!(m[0].scaled_at("pos", 1000), Some(400_000));
}

#[test]
fn a_host_sends_its_position_and_asserts_a_pause() {
    let mut c = hosting(true, false);
    c.set_clock(at(5000));
    c.tick_with(&drawn());
    c.resume(Answer::Player(Some(playing("spotify:track:x", "X", 1000))));
    c.resume(Answer::Player(Some(playing("spotify:track:x", "X", 1000))));
    let m = sent(&c.take_actions());
    assert_eq!(m[0].str_or("type", ""), "SYNC_TICK");
    assert_eq!(m[0].int_at("ts"), Some((EPOCH + 5000) as i64));
    c.resume(Answer::Player(Some(paused("spotify:track:x", "X", 1000))));
    let m = sent(&c.take_actions());
    assert_eq!(m[0], json(r#"{"type":"PAUSE"}"#));
    assert_eq!(m[1].bool_at("p"), Some(false));
    assert_eq!(m[1].scaled_at("pos", 1000), Some(1_000_000));
    assert!(c.question().is_none());
}

#[test]
fn a_player_is_switched() {
    let mut c = hosting(true, false);
    c.handle_cmd(UiCmd::SetBackend(Backend::SpotifastWin));
    match c.question() {
        Some(Question::MakePlayer(b)) => assert_eq!(b, Backend::SpotifastWin),
        other => panic!("{other:?}"),
    }
    c.resume(Answer::Made(Err("no bus".into())));
    assert!(c.shared().logs.last().unwrap().ends_with("player switch failed: no bus"));
    c.handle_cmd(UiCmd::SetBackend(Backend::Cliamp));
    c.resume(Answer::Made(Ok("cliamp".into())));
    assert!(c.shared().logs.last().unwrap().ends_with("switched player → cliamp"));
    c.resume(Answer::Player(Some(playing("spotify:track:n", "N", 3000))));
    c.resume(Answer::Player(Some(playing("spotify:track:n", "N", 3000))));
    let m = sent(&c.take_actions());
    assert_eq!(m[0].str_or("uri", ""), "spotify:track:n");
    assert_eq!(m[0].scaled_at("pos", 1000), Some(3_000_000));
}

#[test]
fn a_switched_player_is_no_pick() {
    let mut c = settled(true);
    c.resume(Answer::Player(Some(playing("spotify:track:a", "A", 8000))));
    c.handle_cmd(UiCmd::SetBackend(Backend::Cliamp));
    c.resume(Answer::Made(Ok("cliamp".into())));
    c.resume(Answer::Player(Some(playing("spotify:track:n", "N", 0))));
    c.resume(Answer::Player(Some(playing("spotify:track:n", "N", 0))));
    assert!(c.shared().logs.last().unwrap().ends_with(
        "syncing the new player to the host's song…"
    ));
    // the display stays the host's
    assert_eq!(c.shared().now_playing.as_ref().unwrap().title, "A");
    c.take_actions();
    c.set_clock(at(20_000));
    c.tick_with(&drawn());
    c.resume(Answer::Player(Some(playing("spotify:track:n", "N", 1000))));
    assert!(!kinds(&c.take_actions()).contains(&"CMD".to_string()));
}

#[test]
fn controls_are_for_those_who_may() {
    let mut c = guest(false);
    c.handle_cmd(UiCmd::Play);
    c.handle_cmd(UiCmd::Next);
    assert!(c.take_actions().is_empty());
    receive(&mut c, r#"{"type":"GCTRL","on":true}"#);
    c.handle_cmd(UiCmd::Play);
    c.handle_cmd(UiCmd::Pause);
    c.handle_cmd(UiCmd::Next);
    let names: Vec<String> =
        sent(&c.take_actions()).iter().map(|m| m.str_or("a", "?")).collect();
    assert_eq!(names, vec!["play", "pause", "next"]);
    c.handle_cmd(UiCmd::AddToQueue { uri: "spotify:track:q".into() });
    assert_eq!(
        sent(&c.take_actions()),
        vec![json(
            r#"{"type":"ADD_Q","uri":"spotify:track:q",
            "addedBy":{"name":"listener","image":""}}"#
        )]
    );
    let mut c = hosting(false, false);
    c.handle_cmd(UiCmd::Play);
    c.handle_cmd(UiCmd::Pause);
    c.handle_cmd(UiCmd::SyncNow);
    c.handle_cmd(UiCmd::AddToQueue { uri: "x".into() });
    let a = c.take_actions();
    assert_eq!(ops(&a), vec!["play", "pause"]);
    assert_eq!(a.len(), 2);
}

#[test]
fn a_dry_run_touches_nothing() {
    let mut c = guest(true);
    receive(&mut c, r#"{"type":"PLAY","uri":"spotify:track:a","pos":1234,"paused":true}"#);
    assert!(c.question().is_none());
    assert!(c.shared().logs.last().unwrap().ends_with(
        "[dry-run] PLAY spotify:track:a @1234ms (paused)"
    ));
    receive(&mut c, r#"{"type":"PAUSE"}"#);
    receive(&mut c, r#"{"type":"SEEK","pos":5}"#);
    assert!(ops(&c.take_actions()).is_empty());
    let mut c = hosting(true, true);
    c.handle_cmd(UiCmd::Play);
    c.handle_cmd(UiCmd::Next);
    receive(&mut c, r#"{"type":"CMD","a":"play"}"#);
    receive(&mut c, r#"{"type":"ADD_Q","uri":"u","title":"t"}"#);
    assert!(!matches!(c.question(), Some(Question::Enqueue { .. })));
    c.resume(Answer::Player(Some(paused("", "", 0))));
    assert!(ops(&c.take_actions()).is_empty());
}

#[test]
fn the_log_is_bounded_and_stamped() {
    let mut c = a_core(false);
    c.set_clock(Clock { steady_ns: 0, epoch_ms: Some((3 * 3600 + 4 * 60 + 5) * 1000) });
    for i in 0..500 {
        c.handle_event(CoreEvent::Log(format!("line {i}")));
    }
    assert_eq!(c.shared().logs.len(), 400);
    assert_eq!(c.shared().logs[0], "03:04:05 line 100");
    assert_eq!(c.shared().logs[399], "03:04:05 line 499");
    c.set_clock(Clock { steady_ns: 0, epoch_ms: None });
    c.handle_event(CoreEvent::Log("x".into()));
    assert_eq!(c.shared().logs[399], " x");
}

#[test]
fn an_answer_to_another_question_changes_nothing() {
    let mut c = hosting(false, false);
    receive(&mut c, r#"{"type":"SYNC"}"#);
    c.resume(Answer::Channel(true));
    c.resume(Answer::Enqueued(true));
    assert!(matches!(c.question(), Some(Question::Player)));
    c.resume(Answer::Player(Some(playing("spotify:track:x", "X", 0))));
    assert_eq!(kinds(&c.take_actions()), vec!["PLAY"]);
}

#[test]
fn a_frozen_report_is_bridged() {
    // a frozen report is bridged by the time that passes
    let mut c = hosting(true, false);
    watch(&mut c, 400, playing("spotify:track:x", "X", 1000));
    watch(&mut c, 800, playing("spotify:track:x", "X", 1400));
    watch(&mut c, 1200, playing("spotify:track:x", "X", 1400));
    assert_eq!(c.shared().progress_us, 1_800_000);
}

/// Hands over what one side sends to the other, and gives what kinds it was.
fn exchange(from: &mut JamCore, to: &mut JamCore) -> Vec<String> {
    let actions = from.take_actions();
    let kinds = kinds(&actions);
    for a in actions {
        if let Action::Send { frames, .. } = a {
            for f in frames {
                to.handle_event_with(CoreEvent::DcRaw(f), &drawn());
            }
        }
    }
    kinds
}

#[test]
fn two_sides_of_a_session() {
    let mut h = hosting(true, false);
    // the guest introduces itself and is welcomed
    let mut g = a_core(false);
    g.handle_cmd_with(UiCmd::Join { code: "QWERTY".into(), name: "pal".into() }, &drawn());
    g.resume_with(Answer::Player(None), &drawn());
    g.resume(Answer::Connected(Ok(())));
    g.resume(Answer::Player(None));
    g.handle_event_with(CoreEvent::PeerOpen("x".into()), &drawn());
    g.resume(Answer::Offered(Offered::Open));
    g.handle_event_with(CoreEvent::DcOpen, &drawn());
    assert_eq!(exchange(&mut g, &mut h), vec!["JOIN"]);
    h.resume(Answer::Player(Some(playing("spotify:track:a", "A", 2500))));
    assert_eq!(exchange(&mut h, &mut g), vec!["INIT", "PLAY", "MEMBERS"]);
    assert_eq!(g.shared().host_name, "wunder");
    assert_eq!(g.shared().members.len(), 2);
    assert_eq!(g.shared().members[1].name, "pal");
    assert_eq!(g.shared().duration_us, 200_000_000);
    assert_eq!(g.shared().progress_us, 2_500_000);
    g.resume(Answer::Player(Some(playing("spotify:track:mine", "Mine", 0))));
    assert_eq!(ops(&g.take_actions()), vec!["open spotify:track:a|A|the artist"]);
    // the guest commands, and the host does it
    g.handle_cmd(UiCmd::Pause);
    assert_eq!(exchange(&mut g, &mut h), vec!["CMD"]);
    assert_eq!(ops(&h.take_actions()), vec!["pause"]);
    // the guest adds a song, and sees it in the queue
    g.handle_cmd(UiCmd::AddToQueue { uri: "spotify:track:q".into() });
    assert_eq!(exchange(&mut g, &mut h), vec!["ADD_Q"]);
    h.resume(Answer::Fetched(Ok(json(r#"{"title":"Queued"}"#))));
    h.resume(Answer::Enqueued(false));
    h.resume(Answer::Player(Some(playing("spotify:track:a", "A", 2500))));
    assert_eq!(exchange(&mut h, &mut g), vec!["Q"]);
    assert_eq!(g.shared().queue[0].title, "Queued");
    assert!(h.shared().logs.iter().any(|l| l.contains("(from pal)")));
    // a ping comes back
    g.set_clock(at(5000));
    g.tick_with(&drawn());
    while g.question().is_some() {
        g.resume(Answer::Player(Some(playing("spotify:track:a", "A", 2500))));
    }
    assert!(exchange(&mut g, &mut h).contains(&"PING".to_string()));
    g.set_clock(at(5060));
    while h.question().is_some() {
        h.resume(Answer::Player(None));
    }
    assert!(exchange(&mut h, &mut g).contains(&"PONG".to_string()));
    assert_eq!(g.shared().ping_ms, 60);
    // the host takes the permission away
    h.handle_cmd(UiCmd::SetGc(false));
    assert_eq!(exchange(&mut h, &mut g), vec!["GCTRL"]);
    assert!(!g.shared().gc);
    g.handle_cmd(UiCmd::Play);
    assert!(g.take_actions().is_empty());
}

#[test]
fn seeks_are_made_up_for_the_way() {
    let mut c = guest(false);
    receive(&mut c, &format!(r#"{{"type":"PONG","ts":{}}}"#, EPOCH - 100));
    receive(&mut c, r#"{"type":"SEEK","pos":7000}"#);
    assert_eq!(ops(&c.take_actions()), vec!["seek 7050000"]);
}

#[test]
fn an_unknown_ping_is_made_up_for_by_the_time_of_sending() {
    let sent = |ago: i64| format!(r#"{{"type":"SEEK","pos":7000,"ts":{}}}"#, EPOCH as i64 - ago);
    for (ago, op) in [
        (200, "seek 7200000"),
        (500, "seek 7500000"),
        (9000, "seek 7500000"),
        (0, "seek 7000000"),
        (-300, "seek 7000000"),
    ] {
        let mut c = guest(false);
        receive(&mut c, &sent(ago));
        assert_eq!(ops(&c.take_actions()), vec![op]);
    }
    // a known ping counts alone
    let mut c = guest(false);
    receive(&mut c, &format!(r#"{{"type":"PONG","ts":{}}}"#, EPOCH - 100));
    receive(&mut c, &sent(400));
    assert_eq!(ops(&c.take_actions()), vec!["seek 7050000"]);
    // a song that starts
    let mut c = guest(false);
    let play = r#"{"type":"PLAY","uri":"spotify:track:a","pos":7000,"paused":false"#;
    receive(&mut c, &format!(r#"{play},"ts":{}}}"#, EPOCH - 200));
    c.resume(Answer::Player(Some(playing("spotify:track:a", "A", 0))));
    assert_eq!(ops(&c.take_actions()), vec!["seek 7200000"]);
}
