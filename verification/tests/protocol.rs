use sras_cli::event::{route_serial_line, Event, SerialLine};
use sras_cli::glyph::Glyph;
use sras_cli::server::{Server, ServerEvent, ServerRequest, DEFAULT_PORT, PING_REPLY};
use sras_cli::wire::{push_u32_be, push_u32_le, read_be_u32};

#[test]
fn parses_glyph_command() {
    match Event::parse("g65,1,2,3,4,255") {
        Some(Event::NewGlyph(c, g)) => {
            assert_eq!(c, 65);
            assert_eq!(g.0, [1, 2, 3, 4, 255]);
        }
        other => panic!("unexpected {:?}", other),
    }
    match Event::parse("g+7,0,0,0,0,010") {
        Some(Event::NewGlyph(c, g)) => {
            assert_eq!(c, 7);
            assert_eq!(g.0, [0, 0, 0, 0, 10]);
        }
        other => panic!("unexpected {:?}", other),
    }
}

#[test]
fn refuses_malformed_glyph_commands() {
    assert!(Event::parse("g1,2,3").is_none());
    assert!(Event::parse("g1,2,3,4,5,6,7").is_none());
    assert!(Event::parse("g1,2,3,4,5,256").is_none());
    assert!(Event::parse("g1,2,,4,5,6").is_none());
    assert!(Event::parse("g").is_none());
    assert!(Event::parse("g1,2,3,4,5,-6").is_none());
}

#[test]
fn parses_print_command() {
    match Event::parse("pHello, world") {
        Some(Event::Write(text)) => assert_eq!(text, "Hello, world"),
        other => panic!("unexpected {:?}", other),
    }
    match Event::parse("p") {
        Some(Event::Write(text)) => assert_eq!(text, ""),
        other => panic!("unexpected {:?}", other),
    }
    match Event::parse("pé") {
        Some(Event::Write(text)) => assert_eq!(text, "é"),
        other => panic!("unexpected {:?}", other),
    }
}

#[test]
fn parses_cursor_command() {
    assert!(matches!(Event::parse("m3,4"), Some(Event::SetCursor(3, 4))));
    assert!(matches!(Event::parse("m0,+12"), Some(Event::SetCursor(0, 12))));
    assert!(Event::parse("m3").is_none());
    assert!(Event::parse("m3,4,5").is_none());
    assert!(Event::parse("m,4").is_none());
    assert!(Event::parse("m3,").is_none());
}

#[test]
fn parses_reading_commands() {
    assert!(matches!(Event::parse("1123"), Some(Event::JTime(123))));
    assert!(matches!(Event::parse("24294967295"), Some(Event::JHumi(4294967295))));
    assert!(Event::parse("14294967296").is_none());
    assert!(Event::parse("1").is_none());
    assert!(Event::parse("1+").is_none());
    assert!(Event::parse("2 5").is_none());
}

#[test]
fn parses_clear_and_unknown() {
    assert!(matches!(Event::parse("c"), Some(Event::Clear)));
    assert!(matches!(Event::parse("cwhatever"), Some(Event::Clear)));
    assert!(matches!(Event::parse(""), Some(Event::Unknown)));
    assert!(matches!(Event::parse("x12"), Some(Event::Unknown)));
    assert!(matches!(Event::parse("3"), Some(Event::Unknown)));
    // a first character that takes more than one byte cannot be split off
    assert!(Event::parse("é1").is_none());
}

#[test]
fn from_str_follows_parse() {
    let e: Event = "m1,2".parse().unwrap();
    assert!(matches!(e, Event::SetCursor(1, 2)));
    let e: Event = "g1,2,3,4,5,6".parse().unwrap();
    assert!(matches!(e, Event::NewGlyph(1, g) if g.0 == [2, 3, 4, 5, 6]));
}

#[test]
fn routes_serial_lines() {
    assert!(matches!(route_serial_line(""), SerialLine::Skip));
    assert!(matches!(route_serial_line("+p\0x"), SerialLine::Skip));
    match route_serial_line("+m1,2") {
        SerialLine::Command(c) => assert_eq!(c, "m1,2"),
        _ => panic!("expected a command"),
    }
    match route_serial_line("sensor ok") {
        SerialLine::Log(l) => assert_eq!(l, "sensor ok"),
        _ => panic!("expected a log line"),
    }
    match route_serial_line("+") {
        SerialLine::Command(c) => assert_eq!(c, ""),
        _ => panic!("expected a command"),
    }
}

#[test]
fn encodes_words_in_both_orders() {
    let mut out = vec![9u8];
    push_u32_le(&mut out, 0x01020304);
    assert_eq!(out, vec![9, 4, 3, 2, 1]);
    let mut out = Vec::new();
    push_u32_be(&mut out, 0x01020304);
    assert_eq!(out, vec![1, 2, 3, 4]);
    assert_eq!(read_be_u32(&[0xde, 0xad, 0xbe, 0xef, 0x00]), 0xdeadbeef);
}

#[test]
fn server_protocol() {
    assert_eq!(PING_REPLY, 1918);
    assert_eq!(Server::ping_reply(), vec![0, 0, 0x07, 0x7e]);
    assert_eq!(Server::classify_request(&[0, 0, 0, 0]), ServerRequest::Ping);
    assert_eq!(Server::classify_request(&[0, 0, 0, 1]), ServerRequest::Dispense);
    assert_eq!(Server::classify_request(&[0, 0, 1, 0]), ServerRequest::Unknown(256));
    assert!(matches!(Server::dispense_event(&[0, 0, 0x13, 0x88]), Event::Dispense(5000, 0)));
    assert_eq!(Server::encode_event(ServerEvent::Time(7000)), vec![0, 0, 0, 1, 0, 0, 0x1b, 0x58]);
    assert_eq!(Server::encode_event(ServerEvent::Humi(3)), vec![0, 0, 0, 2, 0, 0, 0, 3]);
    assert_eq!(Server::port_or_default(0), DEFAULT_PORT);
    assert_eq!(Server::port_or_default(8080), 8080);
}

#[test]
fn glyph_default_is_blank() {
    assert_eq!(Glyph::default().0, [0; 5]);
}

#[test]
fn server_messages_decode_back() {
    for e in [ServerEvent::Time(123456), ServerEvent::Humi(0xfffffffe)] {
        let bytes = Server::encode_event(e);
        let (tag, value) = match e {
            ServerEvent::Time(v) => (1, v),
            ServerEvent::Humi(v) => (2, v),
        };
        assert_eq!(read_be_u32(&bytes), tag);
        assert_eq!(read_be_u32(&bytes[4..]), value);
    }
}

#[test]
fn formatted_commands_parse_back() {
    for (x, y) in [(0usize, 0usize), (11, 5), (123456, 7)] {
        assert!(matches!(Event::parse(&format!("m{},{}", x, y)), Some(Event::SetCursor(a, b)) if a == x && b == y));
    }
    for t in [0u32, 1023, u32::MAX] {
        assert!(matches!(Event::parse(&format!("1{}", t)), Some(Event::JTime(v)) if v == t));
        assert!(matches!(Event::parse(&format!("2{}", t)), Some(Event::JHumi(v)) if v == t));
    }
    let line = format!("g{},{},{},{},{},{}", 200, 1, 22, 133, 0, 255);
    match Event::parse(&line) {
        Some(Event::NewGlyph(c, g)) => {
            assert_eq!(c, 200);
            assert_eq!(g.0, [1, 22, 133, 0, 255]);
        }
        other => panic!("unexpected {:?}", other),
    }
}
