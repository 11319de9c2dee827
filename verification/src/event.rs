//! Events and their frames: the fixed header, then namespace, name and
//! payload.

use crate::error::{Error, ProtocolFault};
use crate::wire::{be_bytes, be_value, u64_from_be, u64_to_be};
use crate::wire::{lemma_be_bytes_len, lemma_be_value_of_bytes};
use crate::wire::lemma_byte_range_words;
use vstd::prelude::*;
use vstd::slice::slice_subrange;
use vstd::utf8::{decode_utf8, encode_utf8, valid_utf8};
use vstd::utf8::{encode_utf8_decode_utf8, encode_utf8_valid_utf8};

verus! {

/// The length of the fixed part of a frame.
pub const HEADER_LEN: usize = 27;

/// The longest payload that a connection takes unless told otherwise.
pub const DEFAULT_PAYLOAD_CAP: u64 = 67_108_864;

/// Whether an event starts a conversation or answers an earlier event.
#[derive(Debug, Clone, Copy, PartialEq, Eq, Structural)]
pub enum EventType {
    Initial,
    Response,
}

impl EventType {
    /// The byte that stands for the type on the wire.
    pub open spec fn code(self) -> u8 {
        match self {
            EventType::Initial => 0,
            EventType::Response => 1,
        }
    }
}

/// The fixed part of a frame.
#[derive(Debug, Clone, Copy, PartialEq, Eq, Structural)]
pub struct Header {
    pub id: u64,
    pub event_type: EventType,
    pub reference_id: u64,
    pub namespace_len: u8,
    pub name_len: u8,
    pub payload_len: u64,
}

/// The bytes of a header on the wire.
pub open spec fn header_bytes(h: Header) -> Seq<u8> {
    be_bytes(h.id as nat, 8) + seq![h.event_type.code()] + be_bytes(h.reference_id as nat, 8)
        + seq![h.namespace_len, h.name_len] + be_bytes(h.payload_len as nat, 8)
}

/// The header that `bytes` starts with, for a connection that takes payloads
/// of up to `cap` bytes. The reference of an initial event is not looked at:
/// such an event refers to nothing.
pub open spec fn parse_header(bytes: Seq<u8>, cap: u64) -> Result<Header, Error> {
    if bytes.len() < HEADER_LEN {
        Err(Error::Protocol(ProtocolFault::Truncated))
    } else if bytes[8] > 1 {
        Err(Error::Protocol(ProtocolFault::BadEventType))
    } else if bytes[8] == 1 && be_value(bytes.subrange(9, 17)) == 0 {
        Err(Error::Protocol(ProtocolFault::ZeroReference))
    } else if bytes[18] == 0 {
        Err(Error::Protocol(ProtocolFault::EmptyName))
    } else if be_value(bytes.subrange(19, 27)) > cap {
        Err(Error::Protocol(ProtocolFault::PayloadTooLarge))
    } else {
        Ok(
            Header {
                id: be_value(bytes.subrange(0, 8)) as u64,
                event_type: if bytes[8] == 0 {
                    EventType::Initial
                } else {
                    EventType::Response
                },
                reference_id: if bytes[8] == 0 {
                    0
                } else {
                    be_value(bytes.subrange(9, 17)) as u64
                },
                namespace_len: bytes[17],
                name_len: bytes[18],
                payload_len: be_value(bytes.subrange(19, 27)) as u64,
            },
        )
    }
}

impl Header {
    /// Whether an event can have this header: it has a name, and refers to
    /// an event exactly if it is a response.
    pub open spec fn valid(self) -> bool {
        &&& self.name_len > 0
        &&& self.event_type == EventType::Initial ==> self.reference_id == 0
        &&& self.event_type == EventType::Response ==> self.reference_id != 0
    }

    /// The number of bytes that follow the header.
    pub open spec fn body_len(self) -> nat {
        (self.namespace_len + self.name_len + self.payload_len) as nat
    }

    /// Reads the header that `prefix` starts with.
    pub fn parse(prefix: &[u8], cap: u64) -> (r: Result<Header, Error>)
        ensures
            r == parse_header(prefix@, cap),
    {
        if prefix.len() < HEADER_LEN {
            return Err(Error::Protocol(ProtocolFault::Truncated));
        }
        let id = u64_from_be(prefix, 0).unwrap();
        let code = prefix[8];
        let reference = u64_from_be(prefix, 9).unwrap();
        let namespace_len = prefix[17];
        let name_len = prefix[18];
        let payload_len = u64_from_be(prefix, 19).unwrap();
        if code > 1 {
            return Err(Error::Protocol(ProtocolFault::BadEventType));
        }
        if code == 1 && reference == 0 {
            return Err(Error::Protocol(ProtocolFault::ZeroReference));
        }
        if name_len == 0 {
            return Err(Error::Protocol(ProtocolFault::EmptyName));
        }
        if payload_len > cap {
            return Err(Error::Protocol(ProtocolFault::PayloadTooLarge));
        }
        let event_type = if code == 0 {
            EventType::Initial
        } else {
            EventType::Response
        };
        let reference_id = if code == 0 {
            0
        } else {
            reference
        };
        Ok(Header { id, event_type, reference_id, namespace_len, name_len, payload_len })
    }

    /// The header as it goes on the wire.
    pub fn to_bytes(&self) -> (out: Vec<u8>)
        ensures
            out@ == header_bytes(*self),
    {
        let mut out = u64_to_be(self.id);
        let code: u8 = match self.event_type {
            EventType::Initial => 0,
            EventType::Response => 1,
        };
        out.push(code);
        let mut reference = u64_to_be(self.reference_id);
        out.append(&mut reference);
        out.push(self.namespace_len);
        out.push(self.name_len);
        let mut payload_len = u64_to_be(self.payload_len);
        out.append(&mut payload_len);
        assert(out@ =~= header_bytes(*self));
        out
    }
}

/// A header has `HEADER_LEN` bytes.
pub proof fn lemma_header_len(h: Header)
    ensures
        header_bytes(h).len() == HEADER_LEN,
{
    lemma_be_bytes_len(h.id as nat, 8);
    lemma_be_bytes_len(h.reference_id as nat, 8);
    lemma_be_bytes_len(h.payload_len as nat, 8);
}

/// The header of an event is read back as it was written, whatever follows
/// it, where the connection takes its payload.
pub proof fn lemma_header_round_trip(h: Header, rest: Seq<u8>, cap: u64)
    requires
        h.valid(),
        h.payload_len <= cap,
    ensures
        parse_header(header_bytes(h) + rest, cap) == Ok::<_, Error>(h),
{
    let wire = header_bytes(h) + rest;
    lemma_header_len(h);
    lemma_byte_range_words();
    lemma_be_bytes_len(h.id as nat, 8);
    lemma_be_bytes_len(h.reference_id as nat, 8);
    lemma_be_bytes_len(h.payload_len as nat, 8);
    lemma_be_value_of_bytes(h.id as nat, 8);
    lemma_be_value_of_bytes(h.reference_id as nat, 8);
    lemma_be_value_of_bytes(h.payload_len as nat, 8);
    assert(wire.subrange(0, 8) =~= be_bytes(h.id as nat, 8));
    assert(wire.subrange(9, 17) =~= be_bytes(h.reference_id as nat, 8));
    assert(wire.subrange(19, 27) =~= be_bytes(h.payload_len as nat, 8));
    assert(wire[8] == h.event_type.code());
    assert(wire[17] == h.namespace_len);
    assert(wire[18] == h.name_len);
}

/// What an event is: the model that the contracts speak of.
pub struct EventView {
    pub id: u64,
    pub event_type: EventType,
    pub reference_id: u64,
    pub namespace: Option<Seq<char>>,
    pub name: Seq<char>,
    pub payload: Seq<u8>,
}

/// The bytes of a namespace on the wire: none for an event without one.
pub open spec fn namespace_bytes(namespace: Option<Seq<char>>) -> Seq<u8> {
    match namespace {
        Some(text) => encode_utf8(text),
        None => Seq::empty(),
    }
}

impl EventView {
    /// Whether this is an event: its name has 1 to 255 bytes, its namespace
    /// too where it has one, its payload length fits the header, and it
    /// refers to an event exactly if it is a response.
    pub open spec fn wf(self) -> bool {
        &&& 1 <= encode_utf8(self.name).len() <= 255
        &&& self.namespace matches Some(text) ==> 1 <= encode_utf8(text).len() <= 255
        &&& self.payload.len() <= u64::MAX
        &&& self.event_type == EventType::Initial ==> self.reference_id == 0
        &&& self.event_type == EventType::Response ==> self.reference_id != 0
    }

    /// The header of the event.
    pub open spec fn header(self) -> Header {
        Header {
            id: self.id,
            event_type: self.event_type,
            reference_id: self.reference_id,
            namespace_len: namespace_bytes(self.namespace).len() as u8,
            name_len: encode_utf8(self.name).len() as u8,
            payload_len: self.payload.len() as u64,
        }
    }

    /// The frame of the event: header, namespace, name, payload.
    pub open spec fn frame(self) -> Seq<u8> {
        header_bytes(self.header()) + namespace_bytes(self.namespace) + encode_utf8(self.name)
            + self.payload
    }
}

/// The event that a header and the three sections behind it make. A section
/// shorter or longer than the header says is refused, and so is text that is
/// not UTF-8.
pub open spec fn assemble(
    h: Header,
    namespace: Seq<u8>,
    name: Seq<u8>,
    payload: Seq<u8>,
) -> Result<EventView, Error> {
    if h.name_len == 0 {
        Err(Error::Protocol(ProtocolFault::EmptyName))
    } else if h.event_type == EventType::Response && h.reference_id == 0 {
        Err(Error::Protocol(ProtocolFault::ZeroReference))
    } else if namespace.len() != h.namespace_len || name.len() != h.name_len || payload.len()
        != h.payload_len {
        Err(Error::Protocol(ProtocolFault::Truncated))
    } else if !valid_utf8(namespace) || !valid_utf8(name) {
        Err(Error::Protocol(ProtocolFault::InvalidText))
    } else {
        Ok(
            EventView {
                id: h.id,
                event_type: h.event_type,
                reference_id: if h.event_type == EventType::Initial {
                    0
                } else {
                    h.reference_id
                },
                namespace: if h.namespace_len == 0 {
                    None
                } else {
                    Some(decode_utf8(namespace))
                },
                name: decode_utf8(name),
                payload,
            },
        )
    }
}

/// The event that `bytes` starts with and the length of its frame, for a
/// connection that takes payloads of up to `cap` bytes.
pub open spec fn decode_event(bytes: Seq<u8>, cap: u64) -> Result<(EventView, nat), Error> {
    match parse_header(bytes, cap) {
        Err(e) => Err(e),
        Ok(h) => {
            let a = HEADER_LEN as int;
            let b = a + h.namespace_len;
            let c = b + h.name_len;
            let d = c + h.payload_len;
            if bytes.len() < d {
                Err(Error::Protocol(ProtocolFault::Truncated))
            } else {
                match assemble(h, bytes.subrange(a, b), bytes.subrange(b, c), bytes.subrange(c, d)) {
                    Err(e) => Err(e),
                    Ok(event) => Ok((event, d as nat)),
                }
            }
        },
    }
}

/// The event that the given fields make, where they make one.
pub open spec fn checked_event(
    id: u64,
    reference: Option<u64>,
    namespace: Option<Seq<char>>,
    name: Seq<char>,
    payload: Seq<u8>,
) -> Result<EventView, Error> {
    if reference == Some(0u64) {
        Err(Error::Protocol(ProtocolFault::ZeroReference))
    } else if encode_utf8(name).len() == 0 || namespace_bytes(namespace).len() == 0
        && namespace is Some {
        Err(Error::Protocol(ProtocolFault::EmptyName))
    } else if encode_utf8(name).len() > 255 || namespace_bytes(namespace).len() > 255 {
        Err(Error::Protocol(ProtocolFault::TextTooLong))
    } else {
        Ok(
            EventView {
                id,
                event_type: if reference is Some {
                    EventType::Response
                } else {
                    EventType::Initial
                },
                reference_id: match reference {
                    Some(k) => k,
                    None => 0,
                },
                namespace,
                name,
                payload,
            },
        )
    }
}

/// The characters of a text that may be absent.
pub open spec fn optional_text(text: Option<String>) -> Option<Seq<char>> {
    match text {
        Some(t) => Some(t@),
        None => None,
    }
}

/// Calls `String::from_utf8`, which gives the text that the bytes encode,
/// and fails exactly where they are not UTF-8.
#[verifier::external_body]
fn text_of(bytes: Vec<u8>) -> (r: Option<String>)
    ensures
        r is Some <==> valid_utf8(bytes@),
        r matches Some(text) ==> text@ == decode_utf8(bytes@),
{
    String::from_utf8(bytes).ok()
}

/// A copy of the bytes of a slice.
fn copy_of(bytes: &[u8]) -> (out: Vec<u8>)
    ensures
        out@ == bytes@,
{
    let mut out: Vec<u8> = Vec::new();
    out.extend_from_slice(bytes);
    out
}

/// A discrete, named message with an id, an optional reference to an
/// earlier event and a payload.
#[derive(Debug, PartialEq, Eq)]
pub struct Event {
    id: u64,
    event_type: EventType,
    reference_id: u64,
    namespace: Option<String>,
    name: String,
    payload: Vec<u8>,
}

impl View for Event {
    type V = EventView;

    closed spec fn view(&self) -> EventView {
        EventView {
            id: self.id,
            event_type: self.event_type,
            reference_id: self.reference_id,
            namespace: optional_text(self.namespace),
            name: self.name@,
            payload: self.payload@,
        }
    }
}

impl Clone for Event {
    fn clone(&self) -> (r: Self)
        ensures
            r@ == self@,
    {
        proof {
            use_type_invariant(self);
        }
        let namespace = match &self.namespace {
            Some(text) => Some(text.clone()),
            None => None,
        };
        let payload = copy_of(self.payload.as_slice());
        Event {
            id: self.id,
            event_type: self.event_type,
            reference_id: self.reference_id,
            namespace,
            name: self.name.clone(),
            payload,
        }
    }
}

impl Event {
    #[verifier::type_invariant]
    spec fn inv(self) -> bool {
        self@.wf()
    }

    /// Makes an event from its fields: a response to the event `k` where
    /// `reference` is `Some(k)`, an initial event where it is `None`.
    pub fn new(
        id: u64,
        reference: Option<u64>,
        namespace: Option<String>,
        name: String,
        payload: Vec<u8>,
    ) -> (r: Result<Event, Error>)
        ensures
            match r {
                Ok(event) => checked_event(id, reference, optional_text(namespace), name@, payload@)
                    == Ok::<_, Error>(event@),
                Err(e) => checked_event(id, reference, optional_text(namespace), name@, payload@)
                    == Err::<EventView, _>(e),
            },
    {
        let reference_id = match reference {
            Some(k) => {
                if k == 0 {
                    return Err(Error::Protocol(ProtocolFault::ZeroReference));
                }
                k
            },
            None => 0,
        };
        let name_len = name.as_str().as_bytes().len();
        let namespace_len = match &namespace {
            Some(text) => text.as_str().as_bytes().len(),
            None => 0,
        };
        if name_len == 0 || (namespace_len == 0 && namespace.is_some()) {
            return Err(Error::Protocol(ProtocolFault::EmptyName));
        }
        if name_len > 255 || namespace_len > 255 {
            return Err(Error::Protocol(ProtocolFault::TextTooLong));
        }
        let event_type = if reference.is_some() {
            EventType::Response
        } else {
            EventType::Initial
        };
        proof {
            assert(payload@.len() == payload.len());
        }
        Ok(Event { id, event_type, reference_id, namespace, name, payload })
    }

    /// The id of the event.
    pub fn id(&self) -> (r: u64)
        ensures
            r == self@.id,
    {
        self.id
    }

    /// Whether the event starts a conversation or answers an earlier event.
    pub fn event_type(&self) -> (r: EventType)
        ensures
            r == self@.event_type,
    {
        self.event_type
    }

    /// The id of the event that this one answers, for a response.
    pub fn reference_id(&self) -> (r: Option<u64>)
        ensures
            r == (if self@.event_type == EventType::Response {
                Some(self@.reference_id)
            } else {
                None
            }),
    {
        match self.event_type {
            EventType::Response => Some(self.reference_id),
            EventType::Initial => None,
        }
    }

    /// The namespace of the event, where it has one.
    pub fn namespace(&self) -> (r: &Option<String>)
        ensures
            optional_text(*r) == self@.namespace,
    {
        &self.namespace
    }

    /// The name of the event.
    pub fn name(&self) -> (r: &str)
        ensures
            r@ == self@.name,
    {
        self.name.as_str()
    }

    /// The payload of the event.
    pub fn payload(&self) -> (r: &[u8])
        ensures
            r@ == self@.payload,
    {
        self.payload.as_slice()
    }

    /// The header of the event.
    pub fn header(&self) -> (h: Header)
        ensures
            self@.wf(),
            h == self@.header(),
            h.valid(),
    {
        proof {
            use_type_invariant(self);
            assert(self.payload@.len() == self.payload.len());
        }
        let namespace_len = match &self.namespace {
            Some(text) => text.as_str().as_bytes().len(),
            None => 0,
        };
        Header {
            id: self.id,
            event_type: self.event_type,
            reference_id: self.reference_id,
            namespace_len: namespace_len as u8,
            name_len: self.name.as_str().as_bytes().len() as u8,
            payload_len: self.payload.len() as u64,
        }
    }

    /// The frame of the event.
    pub fn to_bytes(&self) -> (out: Vec<u8>)
        ensures
            out@ == self@.frame(),
    {
        let mut out = self.header().to_bytes();
        match &self.namespace {
            Some(text) => {
                out.extend_from_slice(text.as_str().as_bytes());
            },
            None => {},
        }
        out.extend_from_slice(self.name.as_str().as_bytes());
        out.extend_from_slice(self.payload.as_slice());
        assert(out@ =~= self@.frame());
        out
    }

    /// Makes the event that a header and the three sections behind it
    /// describe.
    pub fn from_parts(header: &Header, namespace: &[u8], name: &[u8], payload: Vec<u8>) -> (r:
        Result<Event, Error>)
        ensures
            match r {
                Ok(event) => assemble(*header, namespace@, name@, payload@) == Ok::<_, Error>(
                    event@,
                ),
                Err(e) => assemble(*header, namespace@, name@, payload@) == Err::<EventView, _>(e),
            },
    {
        if header.name_len == 0 {
            return Err(Error::Protocol(ProtocolFault::EmptyName));
        }
        let is_response = match header.event_type {
            EventType::Response => true,
            EventType::Initial => false,
        };
        if is_response && header.reference_id == 0 {
            return Err(Error::Protocol(ProtocolFault::ZeroReference));
        }
        if namespace.len() != header.namespace_len as usize || name.len()
            != header.name_len as usize || payload.len() as u64 != header.payload_len {
            return Err(Error::Protocol(ProtocolFault::Truncated));
        }
        let namespace_text = match text_of(copy_of(namespace)) {
            Some(text) => text,
            None => {
                return Err(Error::Protocol(ProtocolFault::InvalidText));
            },
        };
        let name_text = match text_of(copy_of(name)) {
            Some(text) => text,
            None => {
                return Err(Error::Protocol(ProtocolFault::InvalidText));
            },
        };
        proof {
            vstd::utf8::decode_utf8_encode_utf8(namespace@);
            vstd::utf8::decode_utf8_encode_utf8(name@);
            assert(payload@.len() == payload.len());
        }
        let reference_id = if is_response {
            header.reference_id
        } else {
            0
        };
        let namespace = if header.namespace_len == 0 {
            None
        } else {
            Some(namespace_text)
        };
        Ok(
            Event {
                id: header.id,
                event_type: header.event_type,
                reference_id,
                namespace,
                name: name_text,
                payload,
            },
        )
    }

    /// Reads the event that `bytes` starts with, and says how long its frame
    /// is. `cap` is the longest payload that the connection takes.
    pub fn from_bytes(bytes: &[u8], cap: u64) -> (r: Result<(Event, usize), Error>)
        ensures
            match r {
                Ok((event, used)) => decode_event(bytes@, cap) == Ok::<_, Error>(
                    (event@, used as nat),
                ),
                Err(e) => decode_event(bytes@, cap) == Err::<(EventView, nat), _>(e),
            },
    {
        let header = match Header::parse(bytes, cap) {
            Ok(h) => h,
            Err(e) => {
                return Err(e);
            },
        };
        let a = HEADER_LEN;
        let b = a + header.namespace_len as usize;
        let c = b + header.name_len as usize;
        if bytes.len() < c || header.payload_len > (bytes.len() - c) as u64 {
            return Err(Error::Protocol(ProtocolFault::Truncated));
        }
        let d = c + header.payload_len as usize;
        let payload = copy_of(slice_subrange(bytes, c, d));
        match Event::from_parts(
            &header,
            slice_subrange(bytes, a, b),
            slice_subrange(bytes, b, c),
            payload,
        ) {
            Ok(event) => Ok((event, d)),
            Err(e) => Err(e),
        }
    }
}

/// Decoding the frame of an event gives the event back, with every header
/// field and every payload byte as it was, and the length of the frame,
/// whatever follows the frame on the wire. It holds of every event whose
/// payload the connection takes.
pub proof fn lemma_frame_round_trip(e: EventView, rest: Seq<u8>, cap: u64)
    requires
        e.wf(),
        e.payload.len() <= cap,
    ensures
        decode_event(e.frame() + rest, cap) == Ok::<_, Error>((e, e.frame().len())),
{
    let h = e.header();
    let namespace = namespace_bytes(e.namespace);
    let name = encode_utf8(e.name);
    let wire = e.frame() + rest;
    let tail = namespace + name + e.payload + rest;
    assert(wire =~= header_bytes(h) + tail);
    lemma_header_len(h);
    lemma_header_round_trip(h, tail, cap);
    let a = HEADER_LEN as int;
    let b = a + h.namespace_len;
    let c = b + h.name_len;
    let d = c + h.payload_len;
    assert(wire.subrange(a, b) =~= namespace);
    assert(wire.subrange(b, c) =~= name);
    assert(wire.subrange(c, d) =~= e.payload);
    encode_utf8_valid_utf8(e.name);
    encode_utf8_decode_utf8(e.name);
    match e.namespace {
        Some(text) => {
            encode_utf8_valid_utf8(text);
            encode_utf8_decode_utf8(text);
        },
        None => {
            encode_utf8_valid_utf8(Seq::<char>::empty());
            assert(encode_utf8(Seq::<char>::empty()) =~= Seq::<u8>::empty());
        },
    }
    let decoded = assemble(h, namespace, name, e.payload);
    assert(decoded matches Ok(v) && v == e);
}

} // verus!
