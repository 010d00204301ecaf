use jam::binary64::{is_between_zero_and, is_finite, millis_bits, scale_to_int, widen, LIMIT};
use jam::binarypack::{pack, pack_into, push_len, unpack, Packed, Reader};
use jam::codec::{JamCodec, CHUNKED_MTU};
use jam::json::{put, Json, Number};

fn from_value(v: &serde_json::Value) -> Json {
    match v {
        serde_json::Value::Null => Json::Null,
        serde_json::Value::Bool(b) => Json::Bool(*b),
        serde_json::Value::Number(n) => Json::Number(if let Some(u) = n.as_u64() {
            Number::PosInt(u)
        } else if let Some(i) = n.as_i64() {
            Number::NegInt(i)
        } else {
            Number::Float(n.as_f64().unwrap().to_bits())
        }),
        serde_json::Value::String(s) => Json::Str(s.clone()),
        serde_json::Value::Array(a) => Json::Array(a.iter().map(from_value).collect()),
        serde_json::Value::Object(o) => {
            Json::Object(o.iter().map(|(k, v)| (k.clone(), from_value(v))).collect())
        }
    }
}

fn json(text: &str) -> Json {
    from_value(&serde_json::from_str(text).unwrap())
}

#[test]
fn roundtrip() {
    let v = Packed::Dict(vec![
        ("type".into(), Packed::Str("PLAY".into())),
        ("uri".into(), Packed::Str("spotify:track:abc".into())),
        ("pos".into(), Packed::UInt(123456)),
        ("paused".into(), Packed::Bool(false)),
        ("list".into(), Packed::Array(vec![Packed::UInt(1), Packed::Null])),
    ]);
    let bytes = pack(&v);
    let (back, used) = unpack(&bytes).unwrap();
    assert_eq!(used, bytes.len());
    assert_eq!(v, back);
}

#[test]
fn negative_and_float() {
    for v in [
        Packed::Int(-1),
        Packed::Int(-40),
        Packed::Int(-300),
        Packed::Int(-70000),
        Packed::Float(1.5f64.to_bits()),
    ] {
        let bytes = pack(&v);
        let (back, _) = unpack(&bytes).unwrap();
        assert_eq!(v, back);
    }
}

#[test]
fn json_bridge() {
    let mut o = serde_json::Map::new();
    o.insert("type".into(), serde_json::Value::from("JOIN"));
    o.insert("name".into(), serde_json::Value::from("wunder"));
    o.insert("ts".into(), serde_json::Value::from(1726800000000u64));
    o.insert("ok".into(), serde_json::Value::from(true));
    o.insert("x".into(), serde_json::Value::Null);
    let j = from_value(&serde_json::Value::Object(o));
    let p = Packed::from_json(&j);
    let bytes = pack(&p);
    let (back, _) = unpack(&bytes).unwrap();
    assert_eq!(back.to_json(), j);
}

#[test]
fn integers_take_the_shortest_form() {
    let cases: Vec<(Packed, Vec<u8>)> = vec![
        (Packed::UInt(0), vec![0x00]),
        (Packed::UInt(127), vec![0x7f]),
        (Packed::UInt(128), vec![0xcc, 0x80]),
        (Packed::UInt(255), vec![0xcc, 0xff]),
        (Packed::UInt(256), vec![0xcd, 0x01, 0x00]),
        (Packed::UInt(0x1_0000), vec![0xce, 0, 1, 0, 0]),
        (Packed::UInt(0x1_0000_0000), vec![0xcf, 0, 0, 0, 1, 0, 0, 0, 0]),
        (Packed::Int(-1), vec![0xff]),
        (Packed::Int(-32), vec![0xe0]),
        (Packed::Int(-128), vec![0xd0, 0x80]),
        (Packed::Null, vec![0xc0]),
        (Packed::Bool(true), vec![0xc3]),
        (Packed::Bool(false), vec![0xc2]),
    ];
    for (v, bytes) in cases {
        assert_eq!(pack(&v), bytes, "{v:?}");
        assert_eq!(unpack(&bytes).unwrap(), (v, bytes.len()));
    }
}

#[test]
fn text_and_binary_markers_are_swapped() {
    assert_eq!(pack(&Packed::Str("hi".into())), vec![0xb2, b'h', b'i']);
    assert_eq!(pack(&Packed::Bytes(vec![1, 2, 3])), vec![0xa3, 1, 2, 3]);
    assert_eq!(unpack(&[0xb2, b'h', b'i']).unwrap().0, Packed::Str("hi".into()));
    assert_eq!(unpack(&[0xa3, 1, 2, 3]).unwrap().0, Packed::Bytes(vec![1, 2, 3]));
}

#[test]
fn truncated_input_is_refused() {
    for b in [
        vec![],
        vec![0xcd, 0x01],
        vec![0xb3, b'a'],
        vec![0x92, 0x01],
        vec![0x81, 0xb1, b'k'],
        vec![0xcf, 0, 0, 0],
    ] {
        assert!(unpack(&b).is_none(), "{b:?}");
    }
}

#[test]
fn trailing_bytes_are_left() {
    assert_eq!(unpack(&[0x05, 0x06, 0x07]).unwrap(), (Packed::UInt(5), 1));
}

#[test]
fn a_broken_text_is_repaired() {
    let (v, n) = unpack(&[0xb3, b'a', 0xff, b'b']).unwrap();
    assert_eq!(v, Packed::Str("a\u{fffd}b".into()));
    assert_eq!(n, 4);
}

#[test]
fn keys_that_are_no_text_are_shown() {
    // a map with the key 7, and one with an array of a text as key
    let (v, _) = unpack(&[0x81, 0x07, 0xc0]).unwrap();
    match v {
        Packed::Dict(m) => assert!(m[0].0.contains('7'), "{:?}", m[0].0),
        other => panic!("{other:?}"),
    }
    let (v, _) = unpack(&[0x81, 0x91, 0xb3, b'a', b'"', b'b', 0xc0]).unwrap();
    match v {
        Packed::Dict(m) => assert!(m[0].0.contains("\"a\\\"b\""), "{:?}", m[0].0),
        other => panic!("{other:?}"),
    }
}

#[test]
fn single_precision_is_widened_exactly() {
    for f in [0.0f32, -0.0, 1.0, -1.5, 0.1, f32::MAX, f32::MIN_POSITIVE, 1e-45, f32::INFINITY] {
        assert_eq!(widen(f.to_bits()), (f as f64).to_bits(), "{f}");
    }
    let mut b = vec![0xca];
    b.extend_from_slice(&0.1f32.to_bits().to_be_bytes());
    assert_eq!(unpack(&b).unwrap().0, Packed::Float((0.1f32 as f64).to_bits()));
}

#[test]
fn positions_are_read_as_they_were_written() {
    for us in [0i64, 1, -1, 999, 1000, 123_456_789, 220_839_000, -42, 1 << 52, -(1 << 52)] {
        let bits = millis_bits(us);
        assert_eq!(f64::from_bits(bits), us as f64 / 1000.0, "{us}");
        assert_eq!(scale_to_int(bits, 1000), us);
    }
}

#[test]
fn scaling_rounds_and_holds() {
    assert_eq!(scale_to_int(1.5f64.to_bits(), 1000), 1500);
    assert_eq!(scale_to_int(0.0004f64.to_bits(), 1000), 0);
    assert_eq!(scale_to_int(0.0006f64.to_bits(), 1000), 1);
    assert_eq!(scale_to_int((-2.25f64).to_bits(), 1000), -2250);
    assert_eq!(scale_to_int(1e300f64.to_bits(), 1000), LIMIT);
    assert_eq!(scale_to_int((-1e300f64).to_bits(), 1000), -LIMIT);
    assert!(is_finite(1.0f64.to_bits()));
    assert!(!is_finite(f64::NAN.to_bits()));
    assert!(!is_finite(f64::INFINITY.to_bits()));
    assert!(is_between_zero_and(86400.0f64.to_bits(), 86400));
    assert!(!is_between_zero_and(86400.5f64.to_bits(), 86400));
    assert!(!is_between_zero_and((-0.5f64).to_bits(), 86400));
    assert!(!is_between_zero_and(f64::NAN.to_bits(), 86400));
}

#[test]
fn objects_keep_their_keys_in_order() {
    let mut o: Vec<(String, Json)> = Vec::new();
    put(&mut o, "b".into(), Json::Null);
    put(&mut o, "a".into(), Json::Bool(true));
    put(&mut o, "c".into(), Json::Null);
    put(&mut o, "b".into(), Json::Str("x".into()));
    assert_eq!(
        o,
        vec![
            ("a".to_string(), Json::Bool(true)),
            ("b".to_string(), Json::Str("x".into())),
            ("c".to_string(), Json::Null),
        ]
    );
}

#[test]
fn numbers_are_read_by_their_kind() {
    let v = json(r#"{"a": 5, "b": -5, "c": 2.5, "d": "x", "e": 18446744073709551615}"#);
    assert_eq!(v.int_at("a"), Some(5));
    assert_eq!(v.int_at("b"), Some(-5));
    assert_eq!(v.int_at("c"), None);
    assert_eq!(v.int_at("e"), None);
    assert_eq!(v.uint_at("b"), None);
    assert_eq!(v.uint_at("e"), Some(u64::MAX));
    assert_eq!(v.scaled_at("a", 1000), Some(5000));
    assert_eq!(v.scaled_at("b", 1000), Some(-5000));
    assert_eq!(v.scaled_at("c", 1000), Some(2500));
    assert_eq!(v.scaled_at("d", 1000), None);
    assert_eq!(v.str_at("d"), Some("x"));
    assert_eq!(v.str_or("z", "none"), "none");
    assert!(v.get("z").is_none());
}

#[test]
fn a_small_message_is_one_frame() {
    let mut a = JamCodec::new();
    let mut b = JamCodec::new();
    let msg = json(r#"{"type":"PLAY","pos":1234.5,"paused":false,"np":{"uri":"u"}}"#);
    let frames = a.encode(&msg);
    assert_eq!(frames.len(), 1);
    assert_eq!(b.decode(&frames[0]), Some(msg));
}

fn long_message() -> Json {
    let items: Vec<Json> = (0..4000).map(|i| Json::Str(format!("song number {i}"))).collect();
    Json::Object(vec![
        ("queue".to_string(), Json::Array(items)),
        ("type".to_string(), Json::Str("Q".into())),
    ])
}

#[test]
fn a_long_message_is_chunked() {
    let mut a = JamCodec::new();
    let mut b = JamCodec::new();
    let msg = long_message();
    let size = pack(&Packed::from_json(&msg)).len();
    let frames = a.encode(&msg);
    assert_eq!(frames.len(), (size + CHUNKED_MTU - 1) / CHUNKED_MTU);
    assert!(frames.len() > 2);
    for f in &frames[..frames.len() - 1] {
        assert_eq!(b.decode(f), None);
    }
    assert_eq!(b.decode(&frames[frames.len() - 1]), Some(msg));
}

#[test]
fn chunks_may_come_in_any_order_and_twice() {
    let mut a = JamCodec::new();
    let mut b = JamCodec::new();
    let msg = long_message();
    let frames = a.encode(&msg);
    for f in frames[1..].iter().rev() {
        assert_eq!(b.decode(f), None);
        assert_eq!(b.decode(f), None);
    }
    assert_eq!(b.decode(&frames[0]), Some(msg));
}

#[test]
fn chunked_messages_are_told_apart() {
    let mut a = JamCodec::new();
    let mut b = JamCodec::new();
    let one = long_message();
    let mut two = long_message();
    if let Json::Object(o) = &mut two {
        o.push(("z".to_string(), Json::Null));
    }
    let x = a.encode(&one);
    let y = a.encode(&two);
    let n = x.len();
    for i in 0..n - 1 {
        assert_eq!(b.decode(&x[i]), None);
        assert_eq!(b.decode(&y[i]), None);
    }
    assert_eq!(b.decode(&y[n - 1]), Some(two));
    assert_eq!(b.decode(&x[n - 1]), Some(one));
}

#[test]
fn notices_of_the_transport_are_no_messages() {
    let mut c = JamCodec::new();
    let no_place = Packed::Dict(vec![("__peerData".into(), Packed::UInt(1))]);
    assert_eq!(c.decode(&pack(&no_place)), None);
    let no_data = Packed::Dict(vec![
        ("__peerData".into(), Packed::UInt(1)),
        ("n".into(), Packed::UInt(0)),
        ("total".into(), Packed::UInt(1)),
    ]);
    assert_eq!(c.decode(&pack(&no_data)), None);
    assert_eq!(c.decode(&[]), None);
    // a value that is no map is a message
    assert_eq!(c.decode(&[0x05]), Some(Json::Number(Number::PosInt(5))));
    // the notice that the other side closes is none, and another mark is
    let mark = |kind: &str| {
        Packed::Dict(vec![(
            "__peerData".into(),
            Packed::Dict(vec![("type".into(), Packed::Str(kind.into()))]),
        )])
    };
    assert_eq!(c.decode(&pack(&mark("close"))), None);
    assert_eq!(c.decode(&pack(&mark("open"))), Some(json(r#"{"__peerData":{"type":"open"}}"#)));
    let text = Packed::Dict(vec![("__peerData".into(), Packed::Str("close".into()))]);
    assert_eq!(c.decode(&pack(&text)), Some(json(r#"{"__peerData":"close"}"#)));
}

#[test]
fn values_are_appended() {
    let mut out = vec![1u8, 2];
    let v = Packed::Dict(vec![
        ("b".into(), Packed::UInt(1)),
        ("a".into(), Packed::Array(vec![Packed::Null, Packed::Bool(true)])),
        ("b".into(), Packed::UInt(2)),
    ]);
    pack_into(&v, &mut out);
    let want = vec![1, 2, 0x83, 0xb1, b'b', 1, 0xb1, b'a', 0x92, 0xc0, 0xc3, 0xb1, b'b', 2];
    assert_eq!(out, want);
    assert_eq!(out[2..], pack(&v)[..]);
}

#[test]
fn a_buffer_is_read_to_its_end() {
    let mut r = Reader::new(&[7, 8, 9]);
    assert_eq!(r.u8(), Some(7));
    assert_eq!(r.take(3), None);
    assert_eq!(r.take(2), Some(&[8u8, 9][..]));
    assert_eq!(r.u8(), None);
}

#[test]
fn other_messages_may_come_between_chunks() {
    let mut a = JamCodec::new();
    let mut b = JamCodec::new();
    let msg = long_message();
    let frames = a.encode(&msg);
    let small = json(r#"{"type":"PING","ts":1}"#);
    let between = a.encode(&small);
    let n = frames.len();
    for i in (0..n).rev() {
        let got = b.decode(&frames[i]);
        assert_eq!(got, if i == 0 { Some(msg.clone()) } else { None });
        assert_eq!(b.decode(&between[0]), Some(small.clone()));
    }
}

#[test]
fn a_short_length_is_set_in_the_marker() {
    let marker = |len: usize, fix: u8| {
        let mut out = Vec::new();
        push_len(&mut out, len, fix, 0xda, 0xdb);
        out
    };
    assert_eq!(marker(3, 0x80), vec![0x83]);
    assert_eq!(marker(3, 0x81), vec![0x83]);
    assert_eq!(marker(15, 0xff), vec![0xff]);
    assert_eq!(marker(16, 0x80), vec![0xda, 0, 16]);
    assert_eq!(marker(0x1_0000, 0x80), vec![0xdb, 0, 1, 0, 0]);
}
