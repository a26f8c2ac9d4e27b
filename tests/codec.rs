use bryggio::actor::{ActorSubMsg, SignalMsg};
use bryggio::codec::{chars_of, decode_command, decode_signal, encode_command, encode_signal, string_of};
use bryggio::pub_sub::ClientId;

fn msg(id: &str, timestamp: i64, signal: i64) -> SignalMsg {
    SignalMsg::new(ClientId::new(id), timestamp, signal)
}

#[test]
fn signal_text_layout() {
    assert_eq!(encode_signal(&msg("ctrl", 1700, 1500)), "{\"id\":\"ctrl\",\"timestamp\":1700,\"signal\":1.500}");
    assert_eq!(encode_signal(&msg("a", -3, -500)), "{\"id\":\"a\",\"timestamp\":-3,\"signal\":-0.500}");
    assert_eq!(encode_signal(&msg("q\"b\\", 0, 7)), "{\"id\":\"q\\\"b\\\\\",\"timestamp\":0,\"signal\":0.007}");
}

#[test]
fn signal_round_trip() {
    let cases = [
        msg("heater", 1_700_000_000_000, 1000),
        msg("", 0, 0),
        msg("q\"b\\c", -1, -1),
        msg("ünï", i64::MAX, i64::MIN),
        msg("x", i64::MIN, i64::MAX),
    ];
    for m in cases.iter() {
        let back = decode_signal(&encode_signal(m)).unwrap();
        assert_eq!(back.id.0, m.id.0);
        assert_eq!(back.timestamp, m.timestamp);
        assert_eq!(back.signal, m.signal);
    }
}

#[test]
fn malformed_signal_text_is_refused() {
    assert!(decode_signal("").is_none());
    assert!(decode_signal("{\"id\":\"a\",\"timestamp\":1,\"signal\":1.5}").is_none());
    assert!(decode_signal("{\"id\":\"a\",\"timestamp\":1,\"signal\":1.500} ").is_none());
    assert!(decode_signal("{\"id\":\"a\",\"timestamp\":,\"signal\":1.500}").is_none());
    assert!(decode_signal("{\"id\":\"a\",\"timestamp\":12345678901234567890,\"signal\":1.500}").is_none());
    assert!(decode_signal("{\"id\":\"a\",\"timestamp\":9223372036854775808,\"signal\":1.500}").is_none());
    assert!(decode_signal("{\"id\":\"a,\"timestamp\":1,\"signal\":1.500}").is_none());
    let m = decode_signal("{\"id\":\"a\",\"timestamp\":-9223372036854775808,\"signal\":2.250}").unwrap();
    assert_eq!(m.timestamp, i64::MIN);
    assert_eq!(m.signal, 2250);
}

#[test]
fn signal_text_is_json() {
    let text = encode_signal(&msg("q\"b", 12, -2500));
    let v: serde_json::Value = serde_json::from_str(&text).unwrap();
    assert_eq!(v.get("id").and_then(|x| x.as_str()), Some("q\"b"));
    assert_eq!(v.get("timestamp").and_then(|x| x.as_i64()), Some(12));
    assert_eq!(v.get("signal").and_then(|x| x.as_f64()), Some(-2.5));
}

#[test]
fn chars_and_strings() {
    let v = chars_of("añb");
    assert_eq!(v, vec!['a', 'ñ', 'b']);
    assert_eq!(string_of(&v), "añb");
}

#[test]
fn command_round_trip() {
    assert_eq!(encode_command(&ActorSubMsg::Stop), "\"stop\"");
    assert!(matches!(decode_command("\"stop\""), Some(ActorSubMsg::Stop)));
    let set = ActorSubMsg::SetSignal(msg("ctrl", 5, 1000));
    let text = encode_command(&set);
    assert_eq!(text, "{\"set_signal\":{\"id\":\"ctrl\",\"timestamp\":5,\"signal\":1.000}}");
    match decode_command(&text) {
        Some(ActorSubMsg::SetSignal(m)) => {
            assert_eq!(m.id.0, "ctrl");
            assert_eq!(m.timestamp, 5);
            assert_eq!(m.signal, 1000);
        }
        _ => panic!("command not read back"),
    }
    assert!(decode_command("\"stop\" ").is_none());
    assert!(decode_command("{\"set_signal\":{}}").is_none());
}

#[test]
fn publication_is_wrapped_under_signal() {
    use_publication();
}

fn use_publication() {
    let p = bryggio::actor::ActorPubMsg::CurrentSignal(msg("heater", 9, 1000));
    let text = bryggio::codec::encode_publication(&p);
    assert_eq!(text, "{\"signal\":{\"id\":\"heater\",\"timestamp\":9,\"signal\":1.000}}");
    match bryggio::codec::decode_publication(&text) {
        Some(bryggio::actor::ActorPubMsg::CurrentSignal(m)) => {
            assert_eq!(m.id.0, "heater");
            assert_eq!(m.timestamp, 9);
            assert_eq!(m.signal, 1000);
        }
        None => panic!("publication not read back"),
    }
    assert!(bryggio::codec::decode_publication("{\"id\":\"a\",\"timestamp\":1,\"signal\":1.000}").is_none());
}

#[test]
fn control_characters_are_escaped() {
    let m = msg("a\nb\u{1}", 1, 2);
    let text = encode_signal(&m);
    assert_eq!(text, "{\"id\":\"a\\u000ab\\u0001\",\"timestamp\":1,\"signal\":0.002}");
    let v: serde_json::Value = serde_json::from_str(&text).unwrap();
    assert_eq!(v.get("id").and_then(|x| x.as_str()), Some("a\nb\u{1}"));
    assert_eq!(decode_signal(&text).unwrap().id.0, "a\nb\u{1}");
    assert_eq!(decode_signal("{\"id\":\"a\\u000A\",\"timestamp\":1,\"signal\":0.002}").unwrap().id.0, "a\n");
    assert!(decode_signal("{\"id\":\"a\\n\",\"timestamp\":1,\"signal\":0.002}").is_none());
    assert!(decode_signal("{\"id\":\"\\u00e9\",\"timestamp\":1,\"signal\":0.002}").is_none());
}
