//! The forms a payload can take, and how each becomes a byte blob and back.

use crate::error::{Error, SerializationFault};
use crate::wire::{be_bytes, be_value, u64_from_be, u64_to_be};
use crate::wire::{lemma_be_bytes_len, lemma_be_value_of_bytes, lemma_byte_range_words};
use vstd::prelude::*;
use vstd::slice::slice_subrange;

pub use crate::serializer::{DynamicSerializer, SerdePayload};

verus! {

/// A value that can be sent as the payload of an event.
pub trait EventSendPayload: Sized + View {
    /// The blob that a value encodes to, `None` where it has no encoding.
    spec fn encoding(v: Self::V) -> Option<Seq<u8>>;

    /// Encodes the value.
    fn to_payload_bytes(self) -> (r: Result<Vec<u8>, Error>)
        ensures
            match r {
                Ok(bytes) => Self::encoding(self@) == Some(bytes@),
                Err(_) => Self::encoding(self@) is None,
            },
    ;
}

/// A value that can be read from the payload of an event.
pub trait EventReceivePayload: Sized + View {
    /// The value that a blob decodes to, `None` where it is malformed.
    spec fn decoding(bytes: Seq<u8>) -> Option<Self::V>;

    /// Decodes a blob.
    fn from_payload_bytes(bytes: &[u8]) -> (r: Result<Self, Error>)
        ensures
            match r {
                Ok(value) => Self::decoding(bytes@) == Some(value@),
                Err(e) => Self::decoding(bytes@) is None && e is Serialization,
            },
    ;
}

/// A payload form whose decoding undoes its encoding.
pub trait PayloadRoundTrip: EventSendPayload + EventReceivePayload {
    /// Decoding the encoding of a value gives the value.
    proof fn round_trip(v: Self::V)
        requires
            Self::encoding(v) is Some,
        ensures
            Self::decoding(Self::encoding(v).unwrap()) == Some(v),
    ;
}

/// A payload of raw bytes, sent as they are.
#[derive(Clone)]
pub struct BytePayload {
    bytes: Vec<u8>,
}

impl View for BytePayload {
    type V = Seq<u8>;

    closed spec fn view(&self) -> Seq<u8> {
        self.bytes@
    }
}

impl BytePayload {
    /// Wraps the bytes.
    pub fn new(bytes: Vec<u8>) -> (r: Self)
        ensures
            r@ == bytes@,
    {
        Self { bytes }
    }

    /// Returns the bytes of the payload.
    pub fn into_inner(self) -> (r: Vec<u8>)
        ensures
            r@ == self@,
    {
        self.bytes
    }
}

impl EventSendPayload for BytePayload {
    open spec fn encoding(v: Seq<u8>) -> Option<Seq<u8>> {
        Some(v)
    }

    fn to_payload_bytes(self) -> (r: Result<Vec<u8>, Error>) {
        Ok(self.bytes)
    }
}

impl EventReceivePayload for BytePayload {
    open spec fn decoding(bytes: Seq<u8>) -> Option<Seq<u8>> {
        Some(bytes)
    }

    fn from_payload_bytes(bytes: &[u8]) -> (r: Result<Self, Error>) {
        let mut buf: Vec<u8> = Vec::new();
        buf.extend_from_slice(bytes);
        Ok(Self::new(buf))
    }
}

impl PayloadRoundTrip for BytePayload {
    proof fn round_trip(v: Seq<u8>) {
    }
}

/// The blob of a tandem whose halves encode to `a` and `b`: each half behind
/// its length as a big-endian `u64`.
pub open spec fn tandem_blob(a: Seq<u8>, b: Seq<u8>) -> Seq<u8> {
    be_bytes(a.len(), 8) + a + be_bytes(b.len(), 8) + b
}

/// The two halves that a tandem blob holds, `None` where it ends too early.
/// Bytes behind the second half are not looked at.
pub open spec fn tandem_parts(bytes: Seq<u8>) -> Option<(Seq<u8>, Seq<u8>)> {
    if bytes.len() < 8 {
        None
    } else {
        let n1 = be_value(bytes.subrange(0, 8)) as int;
        if bytes.len() < 16 + n1 {
            None
        } else {
            let n2 = be_value(bytes.subrange(8 + n1, 16 + n1)) as int;
            if bytes.len() < 16 + n1 + n2 {
                None
            } else {
                Some((bytes.subrange(8, 8 + n1), bytes.subrange(16 + n1, 16 + n1 + n2)))
            }
        }
    }
}

/// Taking a tandem blob apart gives the halves it was made of.
pub proof fn lemma_tandem_parts_of_blob(a: Seq<u8>, b: Seq<u8>)
    requires
        a.len() <= u64::MAX,
        b.len() <= u64::MAX,
    ensures
        tandem_parts(tandem_blob(a, b)) == Some((a, b)),
{
    let blob = tandem_blob(a, b);
    let n1 = a.len() as int;
    let n2 = b.len() as int;
    lemma_byte_range_words();
    lemma_be_bytes_len(a.len(), 8);
    lemma_be_bytes_len(b.len(), 8);
    lemma_be_value_of_bytes(a.len(), 8);
    lemma_be_value_of_bytes(b.len(), 8);
    assert(blob.subrange(0, 8) =~= be_bytes(a.len(), 8));
    assert(blob.subrange(8 + n1, 16 + n1) =~= be_bytes(b.len(), 8));
    assert(blob.subrange(8, 8 + n1) =~= a);
    assert(blob.subrange(16 + n1, 16 + n1 + n2) =~= b);
}

/// Joins two encoded halves into one tandem blob.
pub fn join_tandem(first: Vec<u8>, second: Vec<u8>) -> (blob: Vec<u8>)
    ensures
        blob@ == tandem_blob(first@, second@),
{
    let mut first = first;
    let mut second = second;
    let mut first_length = u64_to_be(first.len() as u64);
    let mut second_length = u64_to_be(second.len() as u64);
    let mut blob: Vec<u8> = Vec::new();
    blob.append(&mut first_length);
    blob.append(&mut first);
    blob.append(&mut second_length);
    blob.append(&mut second);
    blob
}

/// Splits a tandem blob into its two encoded halves.
pub fn split_tandem(bytes: &[u8]) -> (r: Option<(&[u8], &[u8])>)
    ensures
        match r {
            Some((a, b)) => tandem_parts(bytes@) == Some((a@, b@)),
            None => tandem_parts(bytes@) is None,
        },
{
    let len = bytes.len();
    let n1 = match u64_from_be(bytes, 0) {
        Some(n) => n,
        None => {
            return None;
        },
    };
    if len < 16 || n1 > (len - 16) as u64 {
        return None;
    }
    let n1 = n1 as usize;
    let n2 = match u64_from_be(bytes, 8 + n1) {
        Some(n) => n,
        None => {
            return None;
        },
    };
    if n2 > (len - 16 - n1) as u64 {
        return None;
    }
    let n2 = n2 as usize;
    let first = slice_subrange(bytes, 8, 8 + n1);
    let second = slice_subrange(bytes, 16 + n1, 16 + n1 + n2);
    Some((first, second))
}

/// Two payloads in one, each independent of the other: one may be
/// serialized data and the other raw bytes.
pub struct TandemPayload<A, B> {
    load1: A,
    load2: B,
}

impl<A: View, B: View> View for TandemPayload<A, B> {
    type V = (A::V, B::V);

    open spec fn view(&self) -> (A::V, B::V) {
        (self.loads().0@, self.loads().1@)
    }
}

impl<A, B> TandemPayload<A, B> {
    /// The two payloads held.
    pub closed spec fn loads(&self) -> (A, B) {
        (self.load1, self.load2)
    }

    /// Holds the two payloads together.
    pub fn new(load1: A, load2: B) -> (r: Self)
        ensures
            r.loads() == (load1, load2),
    {
        Self { load1, load2 }
    }

    /// Returns both payloads stored in the tandem payload.
    pub fn into_inner(self) -> (r: (A, B))
        ensures
            r == self.loads(),
    {
        (self.load1, self.load2)
    }
}

impl<A, B> EventSendPayload for TandemPayload<A, B> where
    A: EventSendPayload,
    B: EventSendPayload,
 {
    open spec fn encoding(v: (A::V, B::V)) -> Option<Seq<u8>> {
        match (A::encoding(v.0), B::encoding(v.1)) {
            (Some(a), Some(b)) => if a.len() <= u64::MAX && b.len() <= u64::MAX {
                Some(tandem_blob(a, b))
            } else {
                None
            },
            _ => None,
        }
    }

    fn to_payload_bytes(self) -> (r: Result<Vec<u8>, Error>) {
        let first = match self.load1.to_payload_bytes() {
            Ok(bytes) => bytes,
            Err(e) => {
                return Err(e);
            },
        };
        let second = match self.load2.to_payload_bytes() {
            Ok(bytes) => bytes,
            Err(e) => {
                return Err(e);
            },
        };
        proof {
            assert(first@.len() == first.len() && second@.len() == second.len());
        }
        Ok(join_tandem(first, second))
    }
}

impl<A, B> EventReceivePayload for TandemPayload<A, B> where
    A: EventReceivePayload,
    B: EventReceivePayload,
 {
    open spec fn decoding(bytes: Seq<u8>) -> Option<(A::V, B::V)> {
        match tandem_parts(bytes) {
            Some((a, b)) => match (A::decoding(a), B::decoding(b)) {
                (Some(x), Some(y)) => Some((x, y)),
                _ => None,
            },
            None => None,
        }
    }

    fn from_payload_bytes(bytes: &[u8]) -> (r: Result<Self, Error>)
        ensures
            tandem_parts(bytes@) is None ==> (r matches Err(e) && e == Error::Serialization(
                SerializationFault::Truncated,
            )),
    {
        let (first, second) = match split_tandem(bytes) {
            Some(parts) => parts,
            None => {
                return Err(Error::Serialization(SerializationFault::Truncated));
            },
        };
        let load1 = match A::from_payload_bytes(first) {
            Ok(load) => load,
            Err(e) => {
                return Err(e);
            },
        };
        let load2 = match B::from_payload_bytes(second) {
            Ok(load) => load,
            Err(e) => {
                return Err(e);
            },
        };
        Ok(Self { load1, load2 })
    }
}

impl<A, B> PayloadRoundTrip for TandemPayload<A, B> where
    A: PayloadRoundTrip,
    B: PayloadRoundTrip,
 {
    proof fn round_trip(v: (A::V, B::V)) {
        let a = A::encoding(v.0).unwrap();
        let b = B::encoding(v.1).unwrap();
        lemma_tandem_parts_of_blob(a, b);
        A::round_trip(v.0);
        B::round_trip(v.1);
    }
}

/// The empty payload.
impl EventSendPayload for () {
    open spec fn encoding(v: ()) -> Option<Seq<u8>> {
        Some(Seq::empty())
    }

    fn to_payload_bytes(self) -> (r: Result<Vec<u8>, Error>) {
        Ok(Vec::new())
    }
}

} // verus!
