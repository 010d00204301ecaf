use jam::json::{Json, Number};
use jam::peerjs::{
    after_read, after_text, heartbeat, opened, random_token, random_token_upper, random_uuid,
    stopped, token_of, upper_token, uuid_of, AfterRead, CoreEvent, Signaling, SocketRead,
    SocketStep, CLOUD_HOST, HEARTBEAT_MS, PEERJS_VERSION,
};

#[test]
fn tokens_are_letters_and_digits() {
    let t = random_token(24);
    assert_eq!(t.len(), 24);
    assert!(t.chars().all(|c| c.is_ascii_alphanumeric()));
    assert_eq!(random_token(0), "");
    let others: Vec<String> = (0..8).map(|_| random_token(24)).collect();
    assert!(others.iter().all(|o| *o != t));
}

#[test]
fn token_of_picks_by_place() {
    assert_eq!(token_of(&vec![0, 25, 26, 51, 52, 61]), "azAZ09");
    assert_eq!(token_of(&vec![]), "");
}

#[test]
fn upper_tokens_have_no_lower_case() {
    for _ in 0..8 {
        let t = random_token_upper(6);
        assert_eq!(t.len(), 6);
        assert!(t.chars().all(|c| c.is_ascii_uppercase() || c.is_ascii_digit()));
    }
    assert_eq!(upper_token("aZ3q"), "AZ3Q");
}

#[test]
fn uuids_have_their_shape() {
    let u = random_uuid();
    let v = random_uuid();
    assert_ne!(u, v);
    for s in [u, v] {
        assert_eq!(s.len(), 36);
        let b = s.as_bytes();
        assert!(b[8] == b'-' && b[13] == b'-' && b[18] == b'-' && b[23] == b'-');
        assert_eq!(b[14], b'4');
        assert!(b"89ab".contains(&b[19]));
    }
    assert_eq!(
        uuid_of([0, 1, 2, 3, 4, 5, 0xff, 7, 0xff, 9, 10, 11, 12, 13, 14, 15]),
        "00010203-0405-4f07-bf09-0a0b0c0d0e0f"
    );
    assert_eq!(uuid_of([0; 16]), "00000000-0000-4000-8000-000000000000");
}

#[test]
fn the_address_names_the_peer() {
    let s = Signaling::with_token("ABC123", "tok");
    assert_eq!(
        s.url(),
        "wss://0.peerjs.com/peerjs?key=peerjs&id=ABC123&token=tok&version=1.5.5"
    );
    let s = Signaling::connect("ABC123");
    let head = format!("wss://{CLOUD_HOST}/peerjs?key=peerjs&id=ABC123&token=");
    let tail = format!("&version={PEERJS_VERSION}");
    assert!(s.url().starts_with(&head) && s.url().ends_with(&tail));
    let token = &s.url()[head.len()..s.url().len() - tail.len()];
    assert_eq!(token.len(), 24);
    assert!(token.chars().all(|c| c.is_ascii_alphanumeric()));
}

#[test]
fn commands_are_sent_in_order() {
    let mut s = Signaling::with_token("a", "b");
    assert!(matches!(s.next_step(), SocketStep::Nothing));
    s.send_json(&Json::Number(Number::PosInt(1)));
    s.send_json(&Json::Number(Number::PosInt(2)));
    s.close();
    assert!(matches!(s.next_step(), SocketStep::Send(Json::Number(Number::PosInt(1)))));
    assert!(matches!(s.next_step(), SocketStep::Send(Json::Number(Number::PosInt(2)))));
    assert!(matches!(s.next_step(), SocketStep::CloseAndStop));
    assert!(matches!(s.next_step(), SocketStep::Nothing));
    s.release();
    assert!(matches!(s.next_step(), SocketStep::Stop));
}

#[test]
fn a_released_connection_sends_what_is_left() {
    let mut s = Signaling::with_token("a", "b");
    s.send_json(&Json::Null);
    s.release();
    assert!(matches!(s.next_step(), SocketStep::Send(Json::Null)));
    assert!(matches!(s.next_step(), SocketStep::Stop));
}

#[test]
fn heartbeats_come_every_five_seconds() {
    let mut s = Signaling::with_token("a", "b");
    s.beat(1000);
    assert!(!s.beat_due(1000 + HEARTBEAT_MS - 1));
    assert!(s.beat_due(1000 + HEARTBEAT_MS));
    s.beat(6000);
    assert!(!s.beat_due(6000));
    assert_eq!(heartbeat(), Json::Object(vec![("type".into(), Json::Str("HEARTBEAT".into()))]));
}

#[test]
fn reads_are_dealt_with() {
    assert!(matches!(
        after_read(SocketRead::Text(Some(Json::Null))),
        AfterRead::Deliver(Json::Null)
    ));
    assert!(matches!(after_read(SocketRead::Text(None)), AfterRead::GoOn));
    match after_text(r#"{"type":"OPEN"}"#) {
        AfterRead::Deliver(v) => assert_eq!(v.str_or("type", ""), "OPEN"),
        other => panic!("{other:?}"),
    }
    assert!(matches!(after_text("hello"), AfterRead::GoOn));
    assert!(matches!(after_read(SocketRead::Ping), AfterRead::Pong));
    assert!(matches!(after_read(SocketRead::Close), AfterRead::Stop));
    assert!(matches!(after_read(SocketRead::Other), AfterRead::GoOn));
    assert!(matches!(after_read(SocketRead::Idle), AfterRead::Rest(50)));
    assert!(matches!(after_read(SocketRead::Failed), AfterRead::Stop));
}

#[test]
fn the_session_hears_of_the_socket() {
    assert!(matches!(opened(Ok(())), CoreEvent::Log(m) if m == "signaling: connected"));
    assert!(matches!(opened(Err("bad ws url: x".into())), CoreEvent::PeerError(m)
        if m == "bad ws url: x"));
    assert!(matches!(stopped(), CoreEvent::SignalClosed));
}
