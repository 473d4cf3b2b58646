use crate::event::{Event, EventView};
use crate::glyph::Glyph;
use crate::pcd8544::{
    if_open, lemma_operations_keep_wf, lemma_text_moves_cursor, pixel_height_of, pixel_width_of,
    DisplayState, GLYPH_SLOTS, PCD8544,
};
use crate::plant_config::PumpConfig;
use crate::server::{Server, ServerEvent, DEFAULT_PORT};
use crate::wire::{le_bytes, push_u32_le};
use vstd::prelude::*;

verus! {

/// Number of character columns of the emulated screen.
pub const SCREEN_COLUMNS: usize = 12;

/// Number of character rows of the emulated screen.
pub const SCREEN_ROWS: usize = 6;

/// Lower bound sent to the Arduino for each sensor when a plant is loaded.
pub const SENSOR_LOW: u32 = 0;

/// Upper bound sent to the Arduino for each sensor when a plant is loaded.
pub const SENSOR_HIGH: u32 = 1023;

/// First byte of a packet sent to the Arduino (`+`).
pub const PACKET_START: u8 = 0x2b;

/// Command byte of a configuration packet (`c`).
pub const CONFIGURE_TAG: u8 = 0x63;

/// Command byte of a watering packet (`d`).
pub const DISPENSE_TAG: u8 = 0x64;

/// Last byte of a packet sent to the Arduino (a newline).
pub const PACKET_END: u8 = 0x0a;

/// What the main loop asks its caller to do after an event.
pub enum Action {
    /// Nothing to do.
    Nothing,
    /// The screen changed: show its new pixels.
    Redraw,
    /// Send these bytes to the Arduino.
    SendSerial(Vec<u8>),
    /// Start the TCP server on this port.
    StartServer(u16),
    /// Convert this raw time reading and send it to the server.
    ForwardTime(u32),
    /// Send this reading to the server.
    ToServer(ServerEvent),
}

/// An action with its bytes as a sequence.
pub enum ActionView {
    Nothing,
    Redraw,
    SendSerial(Seq<u8>),
    StartServer(u16),
    ForwardTime(u32),
    ToServer(ServerEvent),
}

impl View for Action {
    type V = ActionView;

    open spec fn view(&self) -> ActionView {
        match self {
            Action::Nothing => ActionView::Nothing,
            Action::Redraw => ActionView::Redraw,
            Action::SendSerial(bytes) => ActionView::SendSerial(bytes@),
            Action::StartServer(port) => ActionView::StartServer(*port),
            Action::ForwardTime(t) => ActionView::ForwardTime(*t),
            Action::ToServer(e) => ActionView::ToServer(*e),
        }
    }
}

/// The packet that uploads a plant's settings to the Arduino: `+c`, the
/// low and high bound of each of the three sensors, the pump's duration
/// and wait, each as a little-endian 32-bit word, then a newline.
pub open spec fn configure_packet(pump: PumpConfig) -> Seq<u8> {
    seq![PACKET_START, CONFIGURE_TAG] + le_bytes(SENSOR_LOW) + le_bytes(SENSOR_HIGH) + le_bytes(SENSOR_LOW)
        + le_bytes(SENSOR_HIGH) + le_bytes(SENSOR_LOW) + le_bytes(SENSOR_HIGH) + le_bytes(
        pump.duration,
    ) + le_bytes(pump.wait) + seq![PACKET_END]
}

/// The packet that asks the Arduino to water: `+d`, the duration and the
/// wait as little-endian 32-bit words, then a newline.
pub open spec fn dispense_packet(duration: u32, wait: u32) -> Seq<u8> {
    seq![PACKET_START, DISPENSE_TAG] + le_bytes(duration) + le_bytes(wait) + seq![PACKET_END]
}

/// The bytes of a text, as UTF-8.
pub open spec fn text_bytes(text: Seq<char>) -> Seq<u8> {
    vstd::utf8::encode_utf8(text)
}

/// Whether every byte of `bytes` is below 128.
pub open spec fn all_ascii(bytes: Seq<u8>) -> bool {
    forall|i: int| 0 <= i < bytes.len() ==> #[trigger] bytes[i] < GLYPH_SLOTS
}

/// The state of the main loop: the screen, and whether the server may
/// still be started.
pub struct MainLoop {
    display: PCD8544,
    server_pending: bool,
}

pub struct MainLoopView {
    pub display: Option<DisplayState>,
    pub server_pending: bool,
}

impl View for MainLoop {
    type V = MainLoopView;

    closed spec fn view(&self) -> MainLoopView {
        MainLoopView { display: self.display@, server_pending: self.server_pending }
    }
}

/// Whether the main loop can handle event `e` in state `s`: glyph codes and
/// printed bytes must be 7-bit while the screen is open, and the server can
/// be started only once.
pub open spec fn accepts(s: MainLoopView, e: EventView) -> bool {
    match e {
        EventView::NewGlyph(c, _) => (s.display is Some ==> c < GLYPH_SLOTS),
        EventView::Write(t) => (s.display is Some ==> all_ascii(text_bytes(t))),
        EventView::StartServer(_) => s.server_pending,
        _ => true,
    }
}

/// The state after event `e`, and what must be done about it.
pub open spec fn next(s: MainLoopView, e: EventView) -> (MainLoopView, ActionView) {
    match e {
        EventView::Configure(config) => (s, ActionView::SendSerial(configure_packet(config.pump))),
        EventView::NewGlyph(c, g) => (
            MainLoopView { display: if_open(s.display, s.display->0.with_glyph(c, g)), ..s },
            ActionView::Nothing,
        ),
        EventView::Write(text) => (
            MainLoopView {
                display: if_open(s.display, s.display->0.after_text(text_bytes(text))),
                ..s
            },
            ActionView::Redraw,
        ),
        EventView::SetCursor(x, y) => (
            MainLoopView {
                display: if_open(s.display, s.display->0.with_cursor(x as int, y as int)),
                ..s
            },
            ActionView::Nothing,
        ),
        EventView::Clear => (
            MainLoopView { display: if_open(s.display, s.display->0.cleared()), ..s },
            ActionView::Redraw,
        ),
        EventView::Dispense(duration, wait) => (
            s,
            ActionView::SendSerial(dispense_packet(duration, wait)),
        ),
        EventView::StartServer(port) => (
            MainLoopView { server_pending: false, ..s },
            ActionView::StartServer(
                if port != 0 {
                    port
                } else {
                    DEFAULT_PORT
                },
            ),
        ),
        EventView::JTime(t) => (s, ActionView::ForwardTime(t)),
        EventView::JHumi(h) => (s, ActionView::ToServer(ServerEvent::Humi(h))),
        EventView::Unknown => (s, ActionView::Nothing),
    }
}

impl MainLoop {
    /// The internal invariant: an open screen has the main loop's size.
    pub closed spec fn inv(&self) -> bool {
        &&& self.display.inv()
        &&& self.display@ is Some ==> {
            &&& self.display@->0.wf()
            &&& self.display@->0.columns == SCREEN_COLUMNS
            &&& self.display@->0.rows == SCREEN_ROWS
        }
    }

    /// The main loop at start: a fresh 12x6 screen, the server not started.
    pub fn new() -> (r: Self)
        ensures
            r.inv(),
            r@.display == Some(DisplayState::initial(SCREEN_COLUMNS as nat, SCREEN_ROWS as nat)),
            r@.server_pending,
    {
        assert(crate::glyph::CHAR_WIDTH == 5 && crate::glyph::CHAR_HEIGHT == 8);
        assert(pixel_width_of(12) == 73);
        assert(pixel_width_of(SCREEN_COLUMNS as nat) == 73);
        assert(pixel_height_of(6) == 55);
        assert(pixel_height_of(SCREEN_ROWS as nat) == 55);
        let display = PCD8544::new(SCREEN_COLUMNS, SCREEN_ROWS);
        let r = MainLoop { display, server_pending: true };
        assert(r.display@->0.pixels.len() == 73 * 55);
        r
    }

    /// The screen.
    pub fn display(&self) -> (d: &PCD8544)
        ensures
            d@ == self@.display,
    {
        &self.display
    }

    /// Takes note of whether the user still has the screen's window open.
    pub fn update_display(&mut self, window_open: bool)
        requires
            old(self).inv(),
        ensures
            final(self).inv(),
            final(self)@.display == if window_open {
                old(self)@.display
            } else {
                None
            },
            final(self)@.server_pending == old(self)@.server_pending,
    {
        self.display.update(window_open);
    }

    /// Whether the main loop can handle `event` now.
    pub fn accepts(&self, event: &Event) -> (b: bool)
        requires
            self.inv(),
        ensures
            b == accepts(self@, event@),
    {
        match event {
            Event::NewGlyph(c, _) => !self.display.is_open() || *c < 128,
            Event::Write(text) => {
                if !self.display.is_open() {
                    return true;
                }
                let bytes = text.as_str().as_bytes();
                let mut i: usize = 0;
                while i < bytes.len()
                    invariant
                        bytes@ == text_bytes(text@),
                        event@ == EventView::Write(text@),
                        self.display@ is Some,
                        i <= bytes@.len(),
                        forall|j: int| 0 <= j < i ==> #[trigger] bytes@[j] < GLYPH_SLOTS,
                    decreases bytes@.len() - i,
                {
                    if bytes[i] >= 128 {
                        assert(text_bytes(text@)[i as int] >= GLYPH_SLOTS);
                        return false;
                    }
                    i = i + 1;
                }
                true
            },
            Event::StartServer(_) => self.server_pending,
            _ => true,
        }
    }

    /// Handles one event.
    pub fn handle(&mut self, event: Event) -> (a: Action)
        requires
            old(self).inv(),
            accepts(old(self)@, event@),
        ensures
            final(self).inv(),
            final(self)@ == next(old(self)@, event@).0,
            a@ == next(old(self)@, event@).1,
    {
        proof {
            if self.display@ is Some {
                lemma_operations_keep_wf(self.display@->0, 0, crate::glyph::Glyph([0u8, 0u8, 0u8, 0u8, 0u8]), 0, 0);
            }
        }
        match event {
            Event::Unknown => {
                Action::Nothing
            },
            Event::NewGlyph(c, glyph) => {
                proof {
                    if self.display@ is Some {
                        lemma_operations_keep_wf(self.display@->0, c, glyph, 0, 0);
                    }
                }
                self.display.create_char(c, glyph);
                Action::Nothing
            },
            Event::SetCursor(x, y) => {
                proof {
                    if self.display@ is Some {
                        lemma_operations_keep_wf(self.display@->0, 0, crate::glyph::Glyph([0u8, 0u8, 0u8, 0u8, 0u8]), x as int, y as int);
                    }
                }
                self.display.set_cursor(x, y);
                Action::Nothing
            },
            Event::Write(text) => {
                let bytes = text.as_str().as_bytes();
                let ghost start = self.display@;
                let n = bytes.len();
                assert(bytes@.take(0) =~= Seq::<u8>::empty());
                for i in 0..n
                    invariant
                        self.display.inv(),
                        self.server_pending == old(self).server_pending,
                        start == old(self).display@,
                        n == bytes@.len(),
                        bytes@ == text_bytes(text@),
                        start is Some ==> {
                            &&& start->0.wf()
                            &&& start->0.columns == SCREEN_COLUMNS
                            &&& start->0.rows == SCREEN_ROWS
                            &&& forall|j: int| 0 <= j < n ==> #[trigger] bytes@[j] < GLYPH_SLOTS
                        },
                        self.display@ == if_open(start, start->0.after_text(bytes@.take(i as int))),
                {
                    proof {
                        if start is Some {
                            lemma_text_moves_cursor(start->0, bytes@.take(i as int));
                            let prefix = bytes@.take(i + 1);
                            assert(prefix.drop_last() =~= bytes@.take(i as int));
                        }
                    }
                    self.display.write(bytes[i]);
                }
                proof {
                    assert(bytes@.take(n as int) =~= bytes@);
                    if start is Some {
                        lemma_text_moves_cursor(start->0, bytes@);
                    }
                }
                Action::Redraw
            },
            Event::Configure(config) => {
                let mut packet: Vec<u8> = Vec::new();
                packet.push(PACKET_START);
                packet.push(CONFIGURE_TAG);
                push_u32_le(&mut packet, SENSOR_LOW);
                push_u32_le(&mut packet, SENSOR_HIGH);
                push_u32_le(&mut packet, SENSOR_LOW);
                push_u32_le(&mut packet, SENSOR_HIGH);
                push_u32_le(&mut packet, SENSOR_LOW);
                push_u32_le(&mut packet, SENSOR_HIGH);
                push_u32_le(&mut packet, config.pump.duration);
                push_u32_le(&mut packet, config.pump.wait);
                packet.push(PACKET_END);
                assert(packet@ =~= configure_packet(config.pump));
                Action::SendSerial(packet)
            },
            Event::Dispense(duration, wait) => {
                let mut packet: Vec<u8> = Vec::new();
                packet.push(PACKET_START);
                packet.push(DISPENSE_TAG);
                push_u32_le(&mut packet, duration);
                push_u32_le(&mut packet, wait);
                packet.push(PACKET_END);
                assert(packet@ =~= dispense_packet(duration, wait));
                Action::SendSerial(packet)
            },
            Event::StartServer(port) => {
                self.server_pending = false;
                Action::StartServer(Server::port_or_default(port))
            },
            Event::JTime(time) => Action::ForwardTime(time),
            Event::JHumi(humi) => Action::ToServer(ServerEvent::Humi(humi)),
            Event::Clear => {
                self.display.clear();
                Action::Redraw
            },
        }
    }
}

/// The server can be started once: after a start, another start is
/// refused whatever its port.
pub proof fn lemma_server_starts_once(s: MainLoopView, first: u16, second: u16)
    requires
        accepts(s, EventView::StartServer(first)),
    ensures
        !accepts(next(s, EventView::StartServer(first)).0, EventView::StartServer(second)),
{
}

/// Events that do not concern the screen leave it as it is, and only a
/// server start changes whether the server may be started.
pub proof fn lemma_non_screen_events_keep_display(s: MainLoopView, e: EventView)
    requires
        !(e is NewGlyph || e is Write || e is SetCursor || e is Clear),
    ensures
        next(s, e).0.display == s.display,
        !(e is StartServer) ==> next(s, e).0.server_pending == s.server_pending,
{
}

/// Every packet sent to the Arduino starts with `+` and its command byte
/// and ends with a newline; the words between are little-endian.
pub proof fn lemma_packets_are_framed(pump: PumpConfig, duration: u32, wait: u32)
    ensures
        configure_packet(pump).len() == 35,
        configure_packet(pump)[0] == PACKET_START,
        configure_packet(pump)[1] == CONFIGURE_TAG,
        configure_packet(pump)[34] == PACKET_END,
        configure_packet(pump).subrange(26, 30) == le_bytes(pump.duration),
        configure_packet(pump).subrange(30, 34) == le_bytes(pump.wait),
        dispense_packet(duration, wait).len() == 11,
        dispense_packet(duration, wait)[0] == PACKET_START,
        dispense_packet(duration, wait)[1] == DISPENSE_TAG,
        dispense_packet(duration, wait)[10] == PACKET_END,
        dispense_packet(duration, wait).subrange(2, 6) == le_bytes(duration),
        dispense_packet(duration, wait).subrange(6, 10) == le_bytes(wait),
{
    assert(configure_packet(pump).subrange(26, 30) =~= le_bytes(pump.duration));
    assert(configure_packet(pump).subrange(30, 34) =~= le_bytes(pump.wait));
    assert(dispense_packet(duration, wait).subrange(2, 6) =~= le_bytes(duration));
    assert(dispense_packet(duration, wait).subrange(6, 10) =~= le_bytes(wait));
}

/// Each kind of effect comes from its own events: bytes go to the Arduino
/// only for a plant upload or a watering request, readings go to the server
/// only for time and humidity reports, the server is started only on
/// request, and the screen changes only for glyph, cursor, text and clear
/// events.
pub proof fn lemma_effects_are_separated(s: MainLoopView, e: EventView)
    ensures
        next(s, e).1 is SendSerial <==> (e is Configure || e is Dispense),
        (next(s, e).1 is ForwardTime || next(s, e).1 is ToServer) <==> (e is JTime || e is JHumi),
        next(s, e).1 is StartServer <==> e is StartServer,
        next(s, e).0.display != s.display ==> (e is NewGlyph || e is Write || e is SetCursor
            || e is Clear),
        next(s, e).0.server_pending != s.server_pending ==> e is StartServer,
{
}

/// The display after `bytes` are written one at a time, first byte first.
pub open spec fn write_in_order(st: DisplayState, bytes: Seq<u8>) -> DisplayState
    decreases bytes.len(),
{
    if bytes.len() == 0 {
        st
    } else {
        write_in_order(st.after_write(bytes[0]), bytes.drop_first())
    }
}

proof fn lemma_write_in_order_push(st: DisplayState, bytes: Seq<u8>, last: u8)
    ensures
        write_in_order(st, bytes.push(last)) == write_in_order(st, bytes).after_write(last),
    decreases bytes.len(),
{
    if bytes.len() == 0 {
        assert(bytes.push(last).drop_first() =~= Seq::<u8>::empty());
        assert(bytes.push(last)[0] == last);
        assert(write_in_order(st.after_write(last), Seq::<u8>::empty()) == st.after_write(last));
    } else {
        assert(bytes.push(last).drop_first() =~= bytes.drop_first().push(last));
        assert(bytes.push(last)[0] == bytes[0]);
        lemma_write_in_order_push(st.after_write(bytes[0]), bytes.drop_first(), last);
    }
}

proof fn lemma_after_text_is_in_order(st: DisplayState, bytes: Seq<u8>)
    ensures
        st.after_text(bytes) == write_in_order(st, bytes),
    decreases bytes.len(),
{
    if bytes.len() > 0 {
        lemma_after_text_is_in_order(st, bytes.drop_last());
        lemma_write_in_order_push(st, bytes.drop_last(), bytes.last());
        assert(bytes.drop_last().push(bytes.last()) =~= bytes);
    }
}

/// A text received for the screen is written byte after byte, in the order
/// of its UTF-8 bytes, each at the cursor left by the one before, and the
/// screen is redrawn; a closed screen stays closed.
pub proof fn lemma_write_event_writes_in_order(s: MainLoopView, t: Seq<char>)
    ensures
        next(s, EventView::Write(t)).0.display == match s.display {
            Some(st) => Some(write_in_order(st, text_bytes(t))),
            None => None,
        },
        next(s, EventView::Write(t)).0.server_pending == s.server_pending,
        next(s, EventView::Write(t)).1 is Redraw,
{
    if s.display is Some {
        lemma_after_text_is_in_order(s.display->0, text_bytes(t));
    }
}

/// A new glyph replaces exactly the slot of its code on an open screen:
/// that slot holds the glyph, every other slot, the pixels and the cursor
/// are kept.
pub proof fn lemma_new_glyph_replaces_its_slot(s: MainLoopView, c: u8, g: Glyph)
    requires
        s.display is Some,
        s.display->0.wf(),
        c < GLYPH_SLOTS,
    ensures
        next(s, EventView::NewGlyph(c, g)).0.display is Some,
        next(s, EventView::NewGlyph(c, g)).0.display->0.glyphs.len() == GLYPH_SLOTS,
        next(s, EventView::NewGlyph(c, g)).0.display->0.glyphs[c as int] == g,
        forall|j: int|
            0 <= j < GLYPH_SLOTS && j != c ==> #[trigger] next(
                s,
                EventView::NewGlyph(c, g),
            ).0.display->0.glyphs[j] == s.display->0.glyphs[j],
        next(s, EventView::NewGlyph(c, g)).0.display->0.pixels == s.display->0.pixels,
        next(s, EventView::NewGlyph(c, g)).0.display->0.cursor == s.display->0.cursor,
        next(s, EventView::NewGlyph(c, g)).1 is Nothing,
{
}

/// Moving the cursor on an open screen puts it in column `x` modulo the
/// number of columns and row `y` modulo the number of rows, and changes
/// nothing else.
pub proof fn lemma_set_cursor_moves_modulo_grid(s: MainLoopView, x: usize, y: usize)
    requires
        s.display is Some,
        s.display->0.columns > 0,
        s.display->0.rows > 0,
    ensures
        next(s, EventView::SetCursor(x, y)).0.display is Some,
        next(s, EventView::SetCursor(x, y)).0.display->0.cursor == (
            x as nat % s.display->0.columns,
            y as nat % s.display->0.rows,
        ),
        next(s, EventView::SetCursor(x, y)).0.display->0.pixels == s.display->0.pixels,
        next(s, EventView::SetCursor(x, y)).0.display->0.glyphs == s.display->0.glyphs,
        next(s, EventView::SetCursor(x, y)).0.display->0.columns == s.display->0.columns,
        next(s, EventView::SetCursor(x, y)).0.display->0.rows == s.display->0.rows,
        next(s, EventView::SetCursor(x, y)).1 is Nothing,
{
}

/// The main loop refuses only three kinds of events: a glyph whose code is
/// not below 128, or a text with a byte not below 128, while the screen is
/// open, and a second server start. Every other event is handled in every
/// state.
pub proof fn lemma_accepts_all_but_bad_codes_and_second_start(s: MainLoopView, e: EventView)
    ensures
        accepts(s, e) <==> !(
            (s.display is Some && e is NewGlyph && e->NewGlyph_0 >= GLYPH_SLOTS) || (s.display is Some
                && e is Write && exists|i: int|
                0 <= i < text_bytes(e->Write_0).len() && #[trigger] text_bytes(e->Write_0)[i]
                    >= GLYPH_SLOTS) || (!s.server_pending && e is StartServer)
        ),
        e is Configure ==> accepts(s, e),
        e is Dispense ==> accepts(s, e),
        e is Clear ==> accepts(s, e),
        e is SetCursor ==> accepts(s, e),
        e is JTime ==> accepts(s, e),
        e is JHumi ==> accepts(s, e),
        e is Unknown ==> accepts(s, e),
{
}

} // verus!
