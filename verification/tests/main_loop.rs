use sras_cli::controller::{Action, MainLoop};
use sras_cli::event::Event;
use sras_cli::plant_config::{PlantConfig, PumpConfig, RangeConfig};
use sras_cli::server::ServerEvent;

fn plant() -> PlantConfig {
    PlantConfig {
        name: String::from("ficus"),
        soil: RangeConfig { min: 100, max: 900 },
        temperature: RangeConfig { min: 15, max: 30 },
        hygro: RangeConfig { min: 0.25f32.to_bits(), max: 0.75f32.to_bits() },
        pump: PumpConfig { duration: 0x0102, wait: 60000 },
    }
}

#[test]
fn configure_sends_plant_packet() {
    let mut main = MainLoop::new();
    match main.handle(Event::Configure(Box::new(plant()))) {
        Action::SendSerial(bytes) => {
            let mut expected = vec![b'+', b'c'];
            for w in [0u32, 1023, 0, 1023, 0, 1023, 0x0102, 60000] {
                expected.extend_from_slice(&w.to_le_bytes());
            }
            expected.push(b'\n');
            assert_eq!(bytes, expected);
        }
        _ => panic!("expected serial bytes"),
    }
}

#[test]
fn dispense_sends_watering_packet() {
    let mut main = MainLoop::new();
    match main.handle(Event::Dispense(5, u32::MAX)) {
        Action::SendSerial(bytes) => {
            assert_eq!(bytes, vec![b'+', b'd', 5, 0, 0, 0, 0xff, 0xff, 0xff, 0xff, b'\n']);
        }
        _ => panic!("expected serial bytes"),
    }
}

#[test]
fn server_starts_once_on_default_port() {
    let mut main = MainLoop::new();
    assert!(main.accepts(&Event::StartServer(0)));
    assert!(matches!(main.handle(Event::StartServer(0)), Action::StartServer(1918)));
    assert!(!main.accepts(&Event::StartServer(4000)));
    let mut other = MainLoop::new();
    assert!(matches!(other.handle(Event::StartServer(4000)), Action::StartServer(4000)));
}

#[test]
fn readings_go_to_the_server() {
    let mut main = MainLoop::new();
    assert!(matches!(main.handle(Event::JTime(512)), Action::ForwardTime(512)));
    assert!(matches!(main.handle(Event::JHumi(40)), Action::ToServer(ServerEvent::Humi(40))));
    assert!(matches!(main.handle(Event::Unknown), Action::Nothing));
}

#[test]
fn screen_events_change_the_display() {
    let mut main = MainLoop::new();
    assert!(matches!(main.handle(Event::NewGlyph(1, sras_cli::glyph::Glyph([0xff; 5]))), Action::Nothing));
    assert!(matches!(main.handle(Event::SetCursor(13, 7)), Action::Nothing)); // (1, 1)
    assert!(matches!(main.handle(Event::Write(String::from("\u{1}\u{1}"))), Action::Redraw));
    let fb = main.display().framebuffer().unwrap();
    let w = 73;
    assert_eq!(fb[(1 + 9) * w + 1 + 6], 0xa0af37);
    assert_eq!(fb[(1 + 9) * w + 1 + 12], 0xa0af37);
    assert_eq!(fb[(1 + 9) * w + 1], 0x3d3d0d);
    assert!(matches!(main.handle(Event::Clear), Action::Redraw));
    assert!(main.display().framebuffer().unwrap().iter().all(|&p| p == 0x3d3d0d));
}

#[test]
fn non_ascii_text_and_codes_are_refused_while_open() {
    let mut main = MainLoop::new();
    assert!(!main.accepts(&Event::Write(String::from("é"))));
    assert!(main.accepts(&Event::Write(String::from("ok"))));
    assert!(!main.accepts(&Event::NewGlyph(128, sras_cli::glyph::Glyph([0; 5]))));
    assert!(main.accepts(&Event::NewGlyph(127, sras_cli::glyph::Glyph([0; 5]))));
    main.update_display(false);
    assert!(main.accepts(&Event::Write(String::from("é"))));
    assert!(main.accepts(&Event::NewGlyph(128, sras_cli::glyph::Glyph([0; 5]))));
    assert!(matches!(main.handle(Event::Write(String::from("é"))), Action::Redraw));
    assert!(main.display().framebuffer().is_none());
}
