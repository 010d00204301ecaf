use jam::backends::{
    add_after, bus_name, cliamp_args, cliamp_call, cliamp_queue_call, cliamp_state,
    cliamp_status, cliamp_status_args, grant_step, granted_token, is_program, is_same_song,
    mpris_call, mpris_state, mpris_track_id, now_playing, pick_grant, seconds, spotifast_args,
    spotifast_state, spotifast_status_args, token_step, web_song, CliampPlayer, MprisCall, Places,
    Resolution, SpotifastWinPlayer, Stored, TokenStep, TrackList,
};
use jam::cli::{headless, is_headless};
use jam::clock::Clock;
use jam::document::{parse, parse_bytes};
use jam::jam::{Mode, PlayerOp, UiCmd};
use jam::json::{Json, Number};
use jam::lookup::{urlencode, LookupStep, UriLookup};
use jam::player::Backend;
use jam::position::PosTracker;
use jam::trace::{received_line, sent_line};
use jam::ui::{
    can_control, can_join, is_selected, join_code, log_start, ms_fmt, parse_track_uri, play_click,
    presets, status, status_sign,
};

fn json(text: &str) -> Json {
    parse(text).unwrap()
}

#[test]
fn links_and_uris_are_accepted() {
    let id = "4uLU6hMCjMI75M1A2tKUQC";
    let uri = format!("spotify:track:{id}");
    assert_eq!(parse_track_uri(&format!("  {uri}?si=1 ")), Some(uri.clone()));
    assert_eq!(
        parse_track_uri(&format!("https://open.spotify.com/track/{id}?si=abc")),
        Some(uri.clone())
    );
    assert_eq!(parse_track_uri(&format!("open.spotify.com/track/{id}/x")), Some(uri.clone()));
    assert_eq!(parse_track_uri(&format!("open.spotify.com/track/{id}&y")), Some(uri));
    assert_eq!(parse_track_uri("https://open.spotify.com/track/short"), None);
    assert_eq!(parse_track_uri("https://open.spotify.com/track/4uLU6hMCjMI75M1A2tKU-C"), None);
    assert_eq!(parse_track_uri("https://example.com"), None);
    assert_eq!(parse_track_uri(""), None);
}

#[test]
fn times_are_shown() {
    assert_eq!(ms_fmt(0), "0:00");
    assert_eq!(ms_fmt(61_999_999), "1:01");
    assert_eq!(ms_fmt(3_600_000_000), "60:00");
    assert_eq!(ms_fmt(-5), "0:00");
}

#[test]
fn joining_needs_a_code_and_a_name() {
    assert_eq!(join_code(" abc12é\n"), "ABC12É");
    assert!(can_join(Mode::Idle, "ABC123", "me"));
    assert!(!can_join(Mode::Joining, "ABC123", "me"));
    assert!(!can_join(Mode::Idle, "ABC12", "me"));
    assert!(!can_join(Mode::Idle, "ABC12É", "me"));
    assert!(!can_join(Mode::Idle, "ABC123", "  "));
}

#[test]
fn the_window_shows_the_session() {
    assert!(can_control(Mode::Hosting, false));
    assert!(can_control(Mode::Guest, true));
    assert!(!can_control(Mode::Guest, false));
    assert!(!can_control(Mode::Idle, true));
    assert_eq!(log_start(10, 6), 4);
    assert_eq!(log_start(3, 6), 0);
    assert_eq!(status(Mode::Idle, "h", "j"), "idle");
    assert_eq!(status(Mode::Joining, "h", "j"), "connecting…");
    assert_eq!(status(Mode::Guest, "h", "j"), "in a Jam with h");
    assert_eq!(status(Mode::Hosting, "h", "j"), "hosting · j");
    assert_eq!(status_sign(Mode::Joining), "◌");
    assert_eq!(status_sign(Mode::Idle), "○");
    assert_eq!(status_sign(Mode::Guest), "●");
}

#[test]
fn drift_presets() {
    let p = presets();
    let labels: Vec<&str> = p.iter().map(|p| p.label).collect();
    assert_eq!(labels, vec!["Tight", "Normal", "Relaxed", "Manual only"]);
    let on: Vec<bool> = p.iter().map(|p| is_selected(p, true, 300_000, 1_200_000)).collect();
    assert_eq!(on, vec![false, true, false, false]);
    let off: Vec<bool> = p.iter().map(|p| is_selected(p, false, 7, 9)).collect();
    assert_eq!(off, vec![false, false, false, true]);
}

fn args(s: &[&str]) -> Vec<String> {
    s.iter().map(|a| a.to_string()).collect()
}

#[test]
fn the_command_line() {
    assert!(is_headless(&args(&["jam", "--headless"])));
    assert!(!is_headless(&args(&["jam"])));
    let h = headless(&args(&["jam", "--headless", "ABC123"]), None, Some("me".into()));
    assert_eq!(h.backend, Backend::Spotifast { bus_suffix: "fastpotify".into() });
    assert!(!h.dry_run);
    match h.cmd {
        Some(UiCmd::Join { code, name }) => {
            assert_eq!((code.as_str(), name.as_str()), ("ABC123", "me"));
        }
        other => panic!("{other:?}"),
    }
    let h = headless(&args(&["jam", "ABC123", "--mpris", "spotify"]), Some("env".into()), None);
    assert_eq!(h.backend, Backend::Spotifast { bus_suffix: "spotify".into() });
    let h = headless(&args(&["jam", "ABC123"]), Some("env".into()), None);
    assert_eq!(h.backend, Backend::Spotifast { bus_suffix: "env".into() });
    match h.cmd {
        Some(UiCmd::Join { name, .. }) => assert_eq!(name, "jam"),
        other => panic!("{other:?}"),
    }
    let backend = |b: &str| headless(&args(&["jam", "ABC123", "--backend", b]), None, None).backend;
    assert_eq!(backend("cliamp"), Backend::Cliamp);
    assert_eq!(backend("spotifastwin"), Backend::SpotifastWin);
    assert_eq!(backend("spotifast"), Backend::Spotifast { bus_suffix: "fastpotify".into() });
    assert_eq!(backend("vlc"), Backend::Spotifast { bus_suffix: "vlc".into() });
    let h = headless(&args(&["jam", "ABC123", "--dry-run"]), None, None);
    assert!(h.dry_run);
}

#[test]
fn the_command_line_hosts() {
    let h = headless(&args(&["jam", "--headless", "--host", "--gc", "--name"]), None, None);
    match h.cmd {
        Some(UiCmd::Host { name, gc, code }) => {
            assert_eq!(name, "jam");
            assert!(gc);
            assert_eq!(code, None);
        }
        other => panic!("{other:?}"),
    }
    let words = ["jam-gui", "--headless", "--host", "--gc", "--name", "wunder"];
    match headless(&args(&words), None, None).cmd {
        Some(UiCmd::Host { name, gc, code }) => {
            assert_eq!(name, "wunder");
            assert!(gc);
            assert_eq!(code, None);
        }
        other => panic!("{other:?}"),
    }
    let words = ["jam", "--mpris", "spotify", "--backend", "cliamp", "--name", "me", "ABC123"];
    match headless(&args(&words), None, None).cmd {
        Some(UiCmd::Join { code, name }) => {
            assert_eq!((code.as_str(), name.as_str()), ("ABC123", "me"));
        }
        other => panic!("{other:?}"),
    }
    let h = headless(&args(&["jam", "--host", "MINE"]), None, None);
    match h.cmd {
        Some(UiCmd::Host { gc, code, .. }) => {
            assert!(!gc);
            assert_eq!(code.as_deref(), Some("MINE"));
        }
        other => panic!("{other:?}"),
    }
    assert!(headless(&args(&["jam", "--headless", "toolongcode"]), None, None).cmd.is_none());
    assert!(headless(&vec![], None, None).cmd.is_none());
}

#[test]
fn backends_have_labels() {
    let spot = Backend::Spotifast { bus_suffix: "x".into() };
    assert_eq!(spot.label(), "spotifast (MPRIS)");
    assert_eq!(Backend::SpotifastWin.label(), "spotifast (CLI)");
    assert_eq!(Backend::Cliamp.label(), "cliamp (IPC)");
    assert!(spot.same(&Backend::Spotifast { bus_suffix: "x".into() }));
    assert!(!spot.same(&Backend::Spotifast { bus_suffix: "y".into() }));
    assert!(!spot.same(&Backend::Cliamp));
    assert_eq!(bus_name("fastpotify"), "org.mpris.MediaPlayer2.fastpotify");
}

#[test]
fn bus_metadata_is_read() {
    let m = json(
        r#"{"signature":"a{sv}","value":{
        "mpris:trackid":{"signature":"o","value":"/com/spotify/track/4uLU"},
        "mpris:length":{"signature":"x","value":220839000},
        "xesam:artist":{"signature":"as","value":["JOYRYDE",7,"Freddie Gibbs"]},
        "xesam:title":{"signature":"s","value":"DAMN"},
        "mpris:artUrl":{"signature":"s","value":"http://art"},
        "xesam:url":{"signature":"s","value":"https://open.spotify.com/track/4uLU"}}}"#,
    );
    let s = mpris_state("Playing", 1_500_000, &m);
    assert!(s.playing);
    assert_eq!(s.position_us, 1_500_000);
    assert_eq!(s.duration_us, 220_839_000);
    assert_eq!(s.uri, "spotify:track:4uLU");
    assert_eq!(s.title, "DAMN");
    assert_eq!(s.artist, "JOYRYDE, Freddie Gibbs");
    assert_eq!(s.art_url, "http://art");
    assert_eq!(mpris_track_id(&m).as_deref(), Some("/com/spotify/track/4uLU"));
    let s = mpris_state("Paused", 0, &json(r#"{"xesam:url":{"value":"spotify:track:zz"}}"#));
    assert!(!s.playing);
    assert_eq!(s.uri, "spotify:track:zz");
    assert_eq!(s.artist, "");
    let s = mpris_state("Stopped", 0, &json(r#"{"mpris:trackid":{"value":"a_b_c"}}"#));
    assert_eq!(s.uri, "spotify:track:c");
    assert_eq!(mpris_state("Stopped", 0, &Json::Null).uri, "");
}

#[test]
fn bus_players_are_called() {
    let id = Some("/t/1".to_string());
    assert!(matches!(mpris_call(&PlayerOp::Play, &None), MprisCall::Play));
    assert!(matches!(mpris_call(&PlayerOp::Pause, &None), MprisCall::Pause));
    assert!(matches!(mpris_call(&PlayerOp::Next, &None), MprisCall::Next));
    match mpris_call(&PlayerOp::Seek(1_234_567), &id) {
        MprisCall::SetPosition { track_id, position_us } => {
            assert_eq!((track_id.as_str(), position_us), ("/t/1", 1_234_000));
        }
        other => panic!("{other:?}"),
    }
    match mpris_call(&PlayerOp::Seek(-1), &id) {
        MprisCall::SetPosition { position_us, .. } => assert_eq!(position_us, 0),
        other => panic!("{other:?}"),
    }
    assert!(matches!(mpris_call(&PlayerOp::Seek(5), &None), MprisCall::Nothing));
    let open = |u: &str| PlayerOp::Open { uri: u.into(), title: "t".into(), artist: "a".into() };
    assert!(matches!(mpris_call(&open("u"), &None), MprisCall::OpenUri(u) if u == "u"));
    assert!(matches!(mpris_call(&open(""), &None), MprisCall::Nothing));
    assert_eq!(add_after(&id), "/t/1");
    assert_eq!(add_after(&None), "/org/mpris/MediaPlayer2/TrackList/NoTrack");
}

#[test]
fn the_track_list_is_found_out_once() {
    let mut t = TrackList::new();
    assert_eq!(t.known(), None);
    assert!(t.probed(Some("<interface name=\"org.mpris.MediaPlayer2.TrackList\"/>")));
    assert_eq!(t.known(), Some(true));
    t.failed();
    assert_eq!(t.known(), Some(false));
    assert!(!t.probed(Some("<node/>")));
    assert!(!t.probed(None));
}

fn places() -> Places {
    Places {
        running: Some("C:\\run.exe".into()),
        local_app_data: Some("L".into()),
        program_files: None,
        user_profile: Some("U".into()),
    }
}

#[test]
fn programs_are_tried_in_order() {
    assert_eq!(
        CliampPlayer::new(None).candidate_paths(&places()),
        vec![
            "C:\\run.exe",
            "cliamp",
            "cliamp",
            "cliampd",
            "L\\Programs\\cliamp\\cliamp.exe",
            "U\\scoop\\shims\\cliamp.exe"
        ]
    );
    assert_eq!(
        SpotifastWinPlayer::new(Some("mine".into())).candidate_paths(&places()),
        vec![
            "mine",
            "C:\\run.exe",
            "spotifast",
            "fastpotify",
            "spotifast-cli",
            "L\\Programs\\spotifast\\spotifast.exe",
            "U\\go\\bin\\spotifast.exe",
            "U\\scoop\\shims\\spotifast.exe"
        ]
    );
    let nowhere =
        Places { running: None, local_app_data: None, program_files: None, user_profile: None };
    assert_eq!(
        CliampPlayer::new(Some("mine".into())).candidate_paths(&nowhere),
        vec!["mine", "cliamp", "cliampd"]
    );
    assert_eq!(
        SpotifastWinPlayer::new(None).candidate_paths(&nowhere),
        vec!["spotifast", "spotifast", "fastpotify", "spotifast-cli"]
    );
    assert_eq!(
        SpotifastWinPlayer::new(None).candidate_paths(&places())[..2],
        ["C:\\run.exe", "spotifast"]
    );
    assert!(is_program(&args(&["spotifast.exe", "fastpotify.exe"]), "FastPotify"));
    assert!(is_program(&args(&["CLIAMP.EXE"]), "cliamp.exe.exe"));
    assert!(!is_program(&args(&["cliamp.exe"]), "cliampd"));
}

#[test]
fn cliamp_says_what_it_does() {
    let s = cliamp_state(&json(
        r#"{"state":"playing","position":12.5,"duration":200,
        "track":{"path":"spotify:track:x","title":"T","artist":"A"}}"#,
    ));
    assert!(s.playing);
    assert_eq!(s.position_us, 12_500_000);
    assert_eq!(s.duration_us, 200_000_000);
    assert_eq!((s.uri.as_str(), s.title.as_str(), s.artist.as_str()), ("spotify:track:x", "T", "A"));
    let s = cliamp_state(&json(r#"{"state":"paused","duration":1e300,"track":{"path":"/x.mp3"}}"#));
    assert!(!s.playing);
    assert_eq!(s.duration_us, 0);
    assert_eq!(s.uri, "");
    assert_eq!(cliamp_state(&json(r#"{"duration":-3}"#)).duration_us, 0);
    assert_eq!(cliamp_state(&json(r#"{"duration":86400}"#)).duration_us, 86_400_000_000);
    assert_eq!(cliamp_state(&json(r#"{"duration":86401}"#)).duration_us, 0);
    assert_eq!(cliamp_state(&Json::Null).position_us, 0);
    let s = cliamp_status("{\"state\":\"playing\",\"position\":1}\n").unwrap();
    assert!(s.playing);
    assert_eq!(s.position_us, 1_000_000);
    assert!(cliamp_status("cliamp is not running").is_none());
}

#[test]
fn cliamp_is_called() {
    assert_eq!(cliamp_args("op", "{}"), vec!["remote", "call", "op", "--params", "{}"]);
    assert_eq!(cliamp_status_args(), vec!["status", "--json"]);
    let c = cliamp_call(&PlayerOp::Seek(12_999_999)).unwrap();
    assert_eq!(c.op, "seek.absolute");
    assert_eq!(c.params, json(r#"{"value":12}"#));
    assert_eq!(cliamp_call(&PlayerOp::Play).unwrap().op, "runtime.play");
    assert_eq!(cliamp_call(&PlayerOp::Pause).unwrap().op, "runtime.pause");
    assert_eq!(cliamp_call(&PlayerOp::Next).unwrap().params, json("{}"));
    let open = PlayerOp::Open {
        uri: "spotify:track:x".into(),
        title: "".into(),
        artist: "A".into(),
    };
    let c = cliamp_call(&open).unwrap();
    assert_eq!(c.op, "track.play");
    assert_eq!(
        c.params,
        json(
            r#"{"track":{"path":"spotify:track:x","title":"x","artist":"A",
            "provider_meta":{"kind":"track","trackID":"x"}}}"#
        )
    );
    let c = cliamp_queue_call("spotify:track:x", "T", "A");
    assert_eq!(c.op, "track.queue");
    assert_eq!(c.params.get("track").unwrap().str_or("title", ""), "T");
    let nothing = PlayerOp::Open { uri: "".into(), title: "t".into(), artist: "".into() };
    assert!(cliamp_call(&nothing).is_none());
    assert_eq!(seconds(-1), 0);
}

#[test]
fn spotifast_says_what_it_does() {
    let line = "Playing\tDAMN\tJOYRYDE\talbum\t1500.5\t220839\t50\toff\toff\thttp://art\tno\tdev";
    let n = now_playing(&format!("{line}\r\nmore")).unwrap();
    assert!(n.playing);
    assert_eq!((n.title.as_str(), n.artist.as_str()), ("DAMN", "JOYRYDE"));
    assert_eq!((n.position.as_str(), n.duration.as_str()), ("1500.5", "220839"));
    assert_eq!(n.art_url, "http://art");
    let s = spotifast_state(n, 1500.5f64.to_bits(), 220839f64.to_bits(), "u".into());
    assert_eq!(s.position_us, 1_500_500);
    assert_eq!(s.duration_us, 220_839_000);
    assert_eq!(s.uri, "u");
    assert!(now_playing("").is_none());
    assert!(now_playing("a\tb").is_none());
    let last = now_playing("paused\t1\t2\t3\t4\t5\t6\t7\t8\t9\r").unwrap();
    assert!(!last.playing);
    assert_eq!(last.art_url, "9\r");
    assert_eq!(spotifast_status_args(), vec!["now-playing", "--raw"]);
    assert_eq!(spotifast_args(&PlayerOp::Seek(61_000_000)), vec!["seek-to", "61"]);
    assert_eq!(spotifast_args(&PlayerOp::Play), vec!["play"]);
    assert_eq!(spotifast_args(&PlayerOp::Pause), vec!["pause"]);
    assert_eq!(spotifast_args(&PlayerOp::Next), vec!["next"]);
    let open = |u: &str| PlayerOp::Open { uri: u.into(), title: "t".into(), artist: "a".into() };
    assert_eq!(spotifast_args(&open("u")), vec!["play-uri", "u"]);
    assert!(spotifast_args(&open("")).is_empty());
}

#[test]
fn uris_are_looked_up_once() {
    let mut p = SpotifastWinPlayer::new(None);
    assert!(matches!(p.resolve_uri("T", "A"), Resolution::LookUp));
    assert!(matches!(p.resolve_uri("T", "A"), Resolution::Unknown));
    p.finish(Some("spotify:track:x".into()));
    match p.resolve_uri("T", "A") {
        Resolution::Known(u) => assert_eq!(u, "spotify:track:x"),
        other => panic!("{other:?}"),
    }
    assert!(matches!(p.resolve_uri("U", "A"), Resolution::LookUp));
    p.finish(None);
    assert!(matches!(p.resolve_uri("U", "A"), Resolution::Unknown));
    p.finish(Some("late".into()));
    assert!(matches!(p.resolve_uri("U", "A"), Resolution::Unknown));
    // another song takes the place of one that is being looked up
    assert!(matches!(p.resolve_uri("V", "A"), Resolution::LookUp));
    assert!(matches!(p.resolve_uri("W", "A"), Resolution::LookUp));
    p.finish(Some("w".into()));
    assert!(matches!(p.resolve_uri("V", "A"), Resolution::LookUp));
    let quiet = now_playing("playing\t\ta\t\t0\t0\t\t\t\t").unwrap();
    assert!(matches!(p.uri_of(&quiet), Resolution::Unknown));
    let loud = now_playing("playing\tnew\ta\t\t0\t0\t\t\t\t").unwrap();
    assert!(matches!(p.uri_of(&loud), Resolution::LookUp));
}

#[test]
fn queries_are_encoded() {
    assert_eq!(urlencode("a b-c_d.e~f/ü"), "a%20b-c_d.e~f%2F%C3%BC");
    assert_eq!(urlencode(""), "");
}

fn fetch(l: &UriLookup) -> String {
    match l.step() {
        LookupStep::Fetch { url, .. } => url,
        other => panic!("{other:?}"),
    }
}

#[test]
fn a_search_goes_from_title_to_uri() {
    let mut l = UriLookup::new("DAMN", "JOYRYDE, Freddie Gibbs", 220_839_000);
    match l.step() {
        LookupStep::Fetch { url, rest_ms, named } => {
            assert_eq!(
                url,
                "https://api.deezer.com/search?q=DAMN%20JOYRYDE%2C%20Freddie%20Gibbs"
            );
            assert_eq!((rest_ms, named), (0, false));
        }
        other => panic!("{other:?}"),
    }
    l.take(Some(json(
        r#"{"data":[{"artist":{"name":"Else"},"duration":221,"isrc":"NO1"},
        {"artist":{"name":"Joyryde"},"duration":300,"isrc":"NO2"},
        {"artist":{"name":"x, JOYRYDE "},"duration":221,"isrc":"YES"}]}"#,
    )));
    match l.step() {
        LookupStep::Fetch { url, rest_ms, named } => {
            assert_eq!(url, "https://musicbrainz.org/ws/2/isrc/YES?fmt=json");
            assert_eq!((rest_ms, named), (1100, true));
        }
        other => panic!("{other:?}"),
    }
    l.take(Some(json(
        r#"{"recordings":[{"id":"r1"},{"x":1},{"id":"r2"},{"id":"r3"},{"id":"r4"}]}"#,
    )));
    assert_eq!(
        fetch(&l),
        "https://musicbrainz.org/ws/2/recording/r1?inc=url-rels&fmt=json"
    );
    l.take(None);
    assert!(fetch(&l).contains("/r2?"));
    l.take(Some(json(
        r#"{"relations":[{"type":"purchase","url":{"resource":
        "https://open.spotify.com/track/4uLU6hMCjMI75M1A2tKUQC"}},
        {"type":"streaming","url":{"resource":"https://open.spotify.com/track/short"}}]}"#,
    )));
    assert!(fetch(&l).contains("/r3?"));
    l.take(Some(json(
        r#"{"relations":[{"type":"free streaming","url":{"resource":
        "https://open.spotify.com/track/4uLU6hMCjMI75M1A2tKUQC/"}}]}"#,
    )));
    match l.step() {
        LookupStep::Done(u) => {
            assert_eq!(u.as_deref(), Some("spotify:track:4uLU6hMCjMI75M1A2tKUQC"));
        }
        other => panic!("{other:?}"),
    }
}

#[test]
fn a_search_may_find_nothing() {
    let done = |l: &UriLookup| matches!(l.step(), LookupStep::Done(None));
    let mut l = UriLookup::new("T", "", 0);
    l.take(None);
    assert!(done(&l));
    let mut l = UriLookup::new("T", "", 0);
    l.take(Some(json(r#"{"data":[]}"#)));
    assert!(done(&l));
    let mut l = UriLookup::new("T", "", 0);
    l.take(Some(json(r#"{"data":[{"title":"no isrc"},{"isrc":"LATER"}]}"#)));
    assert!(done(&l));
    let mut l = UriLookup::new("T", "", 0);
    l.take(Some(json(r#"{"data":[{"isrc":"I"}]}"#)));
    l.take(Some(json(r#"{"recordings":[]}"#)));
    assert!(done(&l));
    let mut l = UriLookup::new("T", "", 0);
    l.take(Some(json(r#"{"data":[{"isrc":"I"}]}"#)));
    l.take(Some(json(r#"{"recordings":[{"id":"a"}]}"#)));
    l.take(Some(json("{}")));
    assert!(done(&l));
}

#[test]
fn grants_are_picked_and_used() {
    let s = |t: &str, filled: bool, written: i64| Stored { target: t.into(), filled, written };
    let v = vec![
        s("other", true, 99),
        s("p:shared-web.rocks.fastpotify.Fastpotify", true, 5),
        s("q:shared-web.rocks.spotifast.Spotifast", true, 7),
        s("r:shared-web.rocks.spotifast.Spotifast", true, 7),
        s("s:shared-web.rocks.spotifast.Spotifast", false, 9),
    ];
    assert_eq!(pick_grant(&v), Some(2));
    assert_eq!(pick_grant(&vec![s("x", true, 1)]), None);
    let g = json(
        r#"{"grant":{"Web":{"client_id":"c","refresh_token":"r","access_token":"a",
        "expires_at":1000}}}"#,
    );
    assert!(matches!(token_step(&g, 939), Some(TokenStep::Use(t)) if t == "a"));
    match token_step(&g, 940) {
        Some(TokenStep::Refresh { client_id, refresh_token }) => {
            assert_eq!((client_id.as_str(), refresh_token.as_str()), ("c", "r"));
        }
        other => panic!("{other:?}"),
    }
    assert!(token_step(&json(r#"{"grant":{"Web":{"client_id":"c"}}}"#), 0).is_none());
    assert!(token_step(&Json::Null, 0).is_none());
    let text = r#"{"grant":{"Web":{"client_id":"c","refresh_token":"r"}}}"#;
    assert!(matches!(grant_step(text, 0), Some(TokenStep::Refresh { .. })));
    assert!(grant_step("{", 0).is_none());
    let w = json(r#"{"item":{"uri":"spotify:track:x","name":"Song"}}"#);
    assert_eq!(web_song(&w), Some(("spotify:track:x".into(), "Song".into())));
    assert_eq!(web_song(&json(r#"{"item":{"uri":"spotify:episode:x"}}"#)), None);
    assert_eq!(web_song(&json("{}")), None);
}

#[test]
fn titles_of_one_song() {
    assert!(is_same_song("ÜBER", "über"));
    assert!(is_same_song("Song", "song (remix)"));
    assert!(is_same_song("SONG (Live)", "song"));
    assert!(!is_same_song("Song", "Other"));
}

#[test]
fn documents_are_read() {
    let want = Json::Object(vec![
        (
            "a".into(),
            Json::Array(vec![
                Json::Null,
                Json::Bool(true),
                Json::Number(Number::PosInt(u64::MAX)),
                Json::Number(Number::NegInt(-3)),
                Json::Number(Number::Float(2.5f64.to_bits())),
            ]),
        ),
        ("b".into(), Json::Str("é\n".into())),
    ]);
    let text = r#" {"b": "\u00e9\n", "a": [null, true, 18446744073709551615, -3, 2.5]} "#;
    assert_eq!(parse(text), Some(want));
    assert_eq!(parse_bytes(text.as_bytes()), parse(text));
    assert_eq!(parse("{]"), None);
    assert_eq!(parse(""), None);
    assert_eq!(parse_bytes(&[0x22, 0xff, 0x22]), None);
}

#[test]
fn messages_are_shown() {
    let play = json(r#"{"type":"PLAY","uri":"a\"b","pos":1,"ts":-5}"#);
    assert_eq!(sent_line(&play, "Some(1.0)"), "→ PLAY uri=a\"b pos=Some(1.0) ts=Some(-5)");
    assert_eq!(
        received_line(&play, "Some(1.0)"),
        "← PLAY uri=Some(\"a\\\"b\") pos=Some(1.0)"
    );
    let tick = json(r#"{"type":"SYNC_TICK"}"#);
    assert_eq!(sent_line(&tick, "None"), "→ SYNC_TICK uri= pos=None ts=None");
    assert_eq!(received_line(&tick, "None"), "← SYNC_TICK pos=None ts=None");
    assert_eq!(sent_line(&json(r#"{"type":"PONG","ts":7}"#), ""), "→ PONG ts=Some(7)");
    assert_eq!(received_line(&json(r#"{"type":"PING","ts":7}"#), ""), "← PING ts=Some(7)");
    assert_eq!(received_line(&json(r#"{"type":"PLAY"}"#), "None"), "← PLAY uri=None pos=None");
    assert_eq!(sent_line(&json("{}"), ""), "→ ?");
    assert_eq!(received_line(&json(r#"{"type":"Q"}"#), ""), "← Q");
}

#[test]
fn the_button_pauses_and_plays() {
    assert!(matches!(play_click(true), UiCmd::Pause));
    assert!(matches!(play_click(false), UiCmd::Play));
}

fn at(ms: u64) -> Clock {
    Clock { steady_ns: ms * 1_000_000, epoch_ms: Some(ms) }
}

#[test]
fn positions_are_bridged() {
    let mut p = PosTracker::new();
    assert_eq!(p.feed(&at(0), 1_000_000, true), 1_000_000);
    // within 50 ms of the prediction: the report may stand still from here
    assert_eq!(p.feed(&at(100), 1_100_000, true), 1_100_000);
    assert!(p.frozen);
    assert_eq!(p.feed(&at(2000), 1_100_000, true), 3_000_000);
    // it moves again
    assert_eq!(p.feed(&at(2100), 3_500_000, true), 3_500_000);
    assert!(!p.frozen);
    // a pause is believed
    assert_eq!(p.feed(&at(2200), 9_000, false), 9_000);
    // a song change: far-off reports are stale for a while
    p.anchor(&at(3000), 0);
    p.grace_until = Some(at(8000).steady_ns);
    assert_eq!(p.feed(&at(3300), 180_000_000, true), 300_000);
    p.reset();
    assert_eq!(p.feed(&at(4000), 5_000, true), 5_000);
}

#[test]
fn clocks_tell_the_time() {
    let c = Clock { steady_ns: 5_000_000_000, epoch_ms: Some(86_399_999) };
    assert_eq!(c.time(), "23:59:59");
    assert_eq!(c.now_ms(), 86_399_999);
    assert_eq!(c.since(2_000_000_000), 3_000_000_000);
    assert_eq!(c.since(9_000_000_000), 0);
    assert_eq!(c.since_us(2_000_500_000), 2_999_000);
    assert_eq!(c.after(1), 5_000_000_001);
    let none = Clock { steady_ns: u64::MAX, epoch_ms: None };
    assert_eq!(none.time(), "");
    assert_eq!(none.now_ms(), 0);
    assert_eq!(none.after(5), u64::MAX);
}

#[test]
fn a_refreshed_token_is_read_from_the_reply() {
    let r = json(r#"{"access_token":"fresh","expires_in":3600}"#);
    assert_eq!(granted_token(&r), Some("fresh".to_string()));
    assert_eq!(granted_token(&json(r#"{"access_token":7}"#)), None);
    assert_eq!(granted_token(&json(r#"{"error":"invalid_grant"}"#)), None);
    assert_eq!(granted_token(&Json::Null), None);
}
