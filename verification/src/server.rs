use crate::event::{Event, EventView};
use crate::wire::{be_bytes, be_value, push_u32_be, read_be_u32};
use vstd::prelude::*;

verus! {

/// A reading the main loop forwards to the connected client.
#[derive(Clone, Copy, Debug, PartialEq, Eq, Structural)]
pub enum ServerEvent {
    Time(u32),
    Humi(u32),
}

/// The TCP server that lets a client read the plant's sensors and ask for
/// watering. Its protocol is made of big-endian 32-bit words.
pub struct Server {}

/// What a client asks for in the first word it sends.
#[derive(Clone, Copy, Debug, PartialEq, Eq, Structural)]
pub enum ServerRequest {
    /// Word 0: a ping, answered with `PING_REPLY`.
    Ping,
    /// Word 1: a watering request, whose duration is the next word.
    Dispense,
    /// Any other word.
    Unknown(u32),
}

/// The word a ping is answered with.
pub const PING_REPLY: u32 = 1918;

/// The port the server listens on when none is given.
pub const DEFAULT_PORT: u16 = 1918;

/// The tag word that announces a reading of the given kind.
pub open spec fn event_tag(e: ServerEvent) -> u32 {
    match e {
        ServerEvent::Time(_) => 1,
        ServerEvent::Humi(_) => 2,
    }
}

/// The value a reading carries.
pub open spec fn event_value(e: ServerEvent) -> u32 {
    match e {
        ServerEvent::Time(v) => v,
        ServerEvent::Humi(v) => v,
    }
}

/// The request a first word stands for.
pub open spec fn request_of(word: int) -> ServerRequest {
    if word == 0 {
        ServerRequest::Ping
    } else if word == 1 {
        ServerRequest::Dispense
    } else {
        ServerRequest::Unknown(word as u32)
    }
}

impl Server {
    /// The port to listen on: `port`, or `DEFAULT_PORT` when it is 0.
    pub fn port_or_default(port: u16) -> (r: u16)
        ensures
            r == if port != 0 {
                port
            } else {
                DEFAULT_PORT
            },
    {
        if port != 0 {
            port
        } else {
            DEFAULT_PORT
        }
    }

    /// Reads the first word a client sends.
    pub fn classify_request(header: &[u8]) -> (r: ServerRequest)
        requires
            header@.len() >= 4,
        ensures
            r == request_of(be_value(header@)),
    {
        let word = read_be_u32(header);
        if word == 0 {
            ServerRequest::Ping
        } else if word == 1 {
            ServerRequest::Dispense
        } else {
            ServerRequest::Unknown(word)
        }
    }

    /// The bytes that answer a ping.
    pub fn ping_reply() -> (r: Vec<u8>)
        ensures
            r@ == be_bytes(PING_REPLY),
    {
        let mut out: Vec<u8> = Vec::new();
        push_u32_be(&mut out, PING_REPLY);
        assert(out@ =~= be_bytes(PING_REPLY));
        out
    }

    /// The watering request that follows a `Dispense` word: water for the
    /// duration that `payload` holds, with no wait.
    pub fn dispense_event(payload: &[u8]) -> (r: Event)
        requires
            payload@.len() >= 4,
        ensures
            r@ == EventView::Dispense(be_value(payload@) as u32, 0),
    {
        let duration = read_be_u32(payload);
        Event::Dispense(duration, 0)
    }

    /// The bytes that send a reading to the client: its tag word, then its
    /// value.
    pub fn encode_event(e: ServerEvent) -> (r: Vec<u8>)
        ensures
            r@ == be_bytes(event_tag(e)) + be_bytes(event_value(e)),
    {
        let mut out: Vec<u8> = Vec::new();
        match e {
            ServerEvent::Time(time) => {
                push_u32_be(&mut out, 1);
                push_u32_be(&mut out, time);
            },
            ServerEvent::Humi(humi) => {
                push_u32_be(&mut out, 2);
                push_u32_be(&mut out, humi);
            },
        }
        assert(out@ =~= be_bytes(event_tag(e)) + be_bytes(event_value(e)));
        out
    }
}

/// A client reading a message of the server gets back the reading's tag
/// and value.
pub proof fn lemma_server_message_decodes(e: ServerEvent)
    ensures
        be_value(be_bytes(event_tag(e)) + be_bytes(event_value(e))) == event_tag(e),
        be_value((be_bytes(event_tag(e)) + be_bytes(event_value(e))).skip(4)) == event_value(e),
{
    crate::wire::lemma_be_roundtrip(event_tag(e));
    crate::wire::lemma_be_roundtrip(event_value(e));
    let m = be_bytes(event_tag(e)) + be_bytes(event_value(e));
    assert(m.skip(4) =~= be_bytes(event_value(e)));
    assert(m[0] == be_bytes(event_tag(e))[0] && m[1] == be_bytes(event_tag(e))[1]);
    assert(m[2] == be_bytes(event_tag(e))[2] && m[3] == be_bytes(event_tag(e))[3]);
}

} // verus!
