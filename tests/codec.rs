use yeelight::codec::{decode_envelope, decode_line, encode, Command, DecodeError, Inbound, Param};
use yeelight::json::uint_of_number;
use yeelight::values::{Brightness, Color, Effect, TransitionDuration};

fn duration(ms: u32) -> TransitionDuration {
    TransitionDuration::create(ms).unwrap()
}

fn ints(c: &Command) -> Vec<Option<u64>> {
    c.params
        .iter()
        .map(|p| match p {
            Param::Int(n) => Some(*n),
            _ => None,
        })
        .collect()
}

fn text_at(c: &Command, i: usize) -> String {
    match &c.params[i] {
        Param::Text(s) => s.clone(),
        _ => panic!("parameter {} is not a string", i),
    }
}

#[test]
fn rgb_is_packed_into_one_integer() {
    let c = Command::set_color(Color::Rgb(0x12, 0x34, 0x56), Effect::Smooth, duration(500));
    assert_eq!(c.method, "set_rgb");
    assert_eq!(c.params.len(), 3);
    assert_eq!(ints(&c)[0], Some(0x12 * 65536 + 0x34 * 256 + 0x56));
    let w = Command::set_color(Color::Rgb(255, 255, 255), Effect::Sudden, duration(0));
    assert_eq!(ints(&w)[0], Some(16777215));
}

#[test]
fn temperature_fills_three_parameters() {
    let c = Command::set_color(Color::Temp(4000), Effect::Sudden, duration(30));
    assert_eq!(c.method, "set_ct_abx");
    assert_eq!(c.params.len(), 5);
    assert_eq!(&ints(&c)[0..3], &[Some(4000), Some(4000), Some(4000)]);
}

#[test]
fn hue_then_saturation() {
    let c = Command::set_color(Color::Hsv(40, 300), Effect::Smooth, duration(30));
    assert_eq!(c.method, "set_hsv");
    assert_eq!(c.params.len(), 4);
    assert_eq!(&ints(&c)[0..2], &[Some(40), Some(300)]);
}

#[test]
fn every_command_ends_with_effect_and_duration() {
    let b = Brightness::create(70).unwrap();
    let cs = vec![
        Command::set_color(Color::Rgb(1, 2, 3), Effect::Sudden, duration(7)),
        Command::bg_set_color(Color::Temp(2000), Effect::Sudden, duration(7)),
        Command::set_bright(b, Effect::Sudden, duration(7)),
        Command::bg_set_bright(Brightness::create(1).unwrap(), Effect::Sudden, duration(7)),
        Command::set_power(true, Effect::Sudden, duration(7)),
        Command::bg_set_power(false, Effect::Sudden, duration(7)),
    ];
    for c in &cs {
        let n = c.params.len();
        assert_eq!(text_at(c, n - 2), "sudden");
        assert_eq!(ints(c)[n - 1], Some(7));
    }
    assert_eq!(cs[1].method, "bg_set_ct_abx");
    assert_eq!(ints(&cs[2])[0], Some(70));
    assert_eq!(text_at(&cs[4], 0), "on");
    assert_eq!(text_at(&cs[5], 0), "off");
    let smooth = Command::set_power(true, Effect::Smooth, duration(7));
    assert_eq!(text_at(&smooth, 1), "smooth");
}

#[test]
fn encode_writes_one_line() {
    let c = Command::set_color(Color::Rgb(255, 0, 0), Effect::Smooth, duration(500));
    assert_eq!(
        encode(0, &c),
        "{\"id\":0,\"method\":\"set_rgb\",\"params\":[16711680,\"smooth\",500]}\r\n"
    );
}

#[test]
fn encode_escapes_strings_and_writes_booleans() {
    let c = Command::new(
        "set_name".to_string(),
        vec![Param::Text("a\"b".to_string()), Param::Bool(true), Param::Bool(false)],
    );
    assert_eq!(
        encode(12, &c),
        "{\"id\":12,\"method\":\"set_name\",\"params\":[\"a\\\"b\",true,false]}\r\n"
    );
    let empty = Command::new("toggle".to_string(), vec![]);
    assert_eq!(encode(3, &empty), "{\"id\":3,\"method\":\"toggle\",\"params\":[]}\r\n");
}

#[test]
fn round_trip_recovers_method_and_params() {
    let c = Command::new(
        "set_scene".to_string(),
        vec![
            Param::Text("color".to_string()),
            Param::Int(65280),
            Param::Bool(false),
            Param::Text("quote \" and \\ slash".to_string()),
        ],
    );
    let line = encode(u64::MAX, &c);
    let (id, back) = decode_envelope(line.as_bytes()).unwrap();
    assert_eq!(id, u64::MAX);
    assert_eq!(back.method, "set_scene");
    assert_eq!(back.params.len(), 4);
    assert!(matches!(&back.params[0], Param::Text(s) if s == "color"));
    assert!(matches!(back.params[1], Param::Int(65280)));
    assert!(matches!(back.params[2], Param::Bool(false)));
    assert!(matches!(&back.params[3], Param::Text(s) if s == "quote \" and \\ slash"));
}

#[test]
fn decode_reply() {
    match decode_line(b"{\"id\":5,\"result\":[\"ok\",\"x\"]}\r\n") {
        Ok(Inbound::Reply(r)) => {
            assert_eq!(r.id, 5);
            assert_eq!(r.result, vec!["ok".to_string(), "x".to_string()]);
        }
        _ => panic!("expected a reply"),
    }
}

#[test]
fn decode_other_shapes_is_opaque() {
    let lines: Vec<&[u8]> = vec![
        b"{\"method\":\"props\",\"params\":{\"power\":\"on\"}}\r\n",
        b"{\"id\":1,\"error\":{\"code\":-1,\"message\":\"unsupported\"}}\r\n",
        b"{\"id\":-1,\"result\":[\"ok\"]}\r\n",
        b"{\"id\":1.5,\"result\":[\"ok\"]}\r\n",
        b"{\"id\":1,\"result\":[1]}\r\n",
        b"[1,2]\r\n",
        b"\"text\"\n",
    ];
    for l in lines {
        assert!(matches!(decode_line(l), Ok(Inbound::Opaque)));
    }
}

#[test]
fn decode_garbage_is_malformed() {
    assert!(matches!(decode_line(b"{\"id\":1,\"res\r\n"), Err(DecodeError::Malformed)));
    assert!(matches!(decode_line(b"not json\r\n"), Err(DecodeError::Malformed)));
    assert!(matches!(decode_line(b"\r\n"), Err(DecodeError::Malformed)));
}

#[test]
fn decode_reads_numbers_as_printed() {
    match decode_line(b"{\"result\":[\"a\"],\"id\":0}") {
        Ok(Inbound::Reply(r)) => assert_eq!((r.id, r.result.len()), (0, 1)),
        _ => panic!("expected a reply"),
    }
    assert!(matches!(decode_line(b"{\"id\":1e2,\"result\":[]}\r\n"), Ok(Inbound::Opaque)));
    assert!(matches!(decode_line(b"{"), Err(DecodeError::Malformed)));
}

#[test]
fn number_text_limits() {
    assert_eq!(uint_of_number(&"18446744073709551615".to_string()), Some(u64::MAX));
    assert_eq!(uint_of_number(&"18446744073709551616".to_string()), None);
    assert_eq!(uint_of_number(&"0".to_string()), Some(0));
    assert_eq!(uint_of_number(&"".to_string()), None);
    assert_eq!(uint_of_number(&"1.0".to_string()), None);
}
