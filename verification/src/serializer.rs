//! The serializers a payload can name, and the framing of serialized data.

use crate::error::{Error, SerializationFault};
use vstd::prelude::*;
use vstd::slice::slice_subrange;

verus! {

/// The serializers that a peer can pick from. The set is fixed when the
/// library is built; the format id on the wire selects one of them.
#[derive(Debug, Clone, Copy, PartialEq, Eq, Structural)]
pub enum DynamicSerializer {
    Messagepack,
    Bincode,
    Postcard,
    Json,
}

impl DynamicSerializer {
    /// The byte that stands for this serializer on the wire.
    pub open spec fn format_id(self) -> u8 {
        match self {
            DynamicSerializer::Messagepack => 0,
            DynamicSerializer::Bincode => 1,
            DynamicSerializer::Postcard => 2,
            DynamicSerializer::Json => 3,
        }
    }

    /// The serializer that a number stands for, if any.
    pub open spec fn of_number(num: int) -> Option<DynamicSerializer> {
        if num == 0 {
            Some(DynamicSerializer::Messagepack)
        } else if num == 1 {
            Some(DynamicSerializer::Bincode)
        } else if num == 2 {
            Some(DynamicSerializer::Postcard)
        } else if num == 3 {
            Some(DynamicSerializer::Json)
        } else {
            None
        }
    }

    /// The serializer used where the caller names none.
    pub fn first_available() -> (r: Self)
        ensures
            r == DynamicSerializer::Messagepack,
    {
        DynamicSerializer::Messagepack
    }

    /// The byte that stands for this serializer on the wire.
    pub fn id(&self) -> (r: u8)
        ensures
            r == self.format_id(),
    {
        match self {
            DynamicSerializer::Messagepack => 0,
            DynamicSerializer::Bincode => 1,
            DynamicSerializer::Postcard => 2,
            DynamicSerializer::Json => 3,
        }
    }

    /// The serializer that a number stands for.
    pub fn from_primitive(num: usize) -> (r: Result<Self, Error>)
        ensures
            match r {
                Ok(s) => Self::of_number(num as int) == Some(s),
                Err(e) => Self::of_number(num as int) is None && e == Error::Serialization(
                    SerializationFault::UnknownFormat,
                ),
            },
    {
        match num {
            0 => Ok(DynamicSerializer::Messagepack),
            1 => Ok(DynamicSerializer::Bincode),
            2 => Ok(DynamicSerializer::Postcard),
            3 => Ok(DynamicSerializer::Json),
            _ => Err(Error::Serialization(SerializationFault::UnknownFormat)),
        }
    }
}

/// Every serializer is found again from its format id.
pub proof fn lemma_format_id_round_trip(s: DynamicSerializer)
    ensures
        DynamicSerializer::of_number(s.format_id() as int) == Some(s),
{
}

/// The blob of serialized data: the format id, then the data.
pub open spec fn serialized_blob(format: DynamicSerializer, data: Seq<u8>) -> Seq<u8> {
    seq![format.format_id()] + data
}

/// The serializer and the data that a blob of serialized data holds.
pub open spec fn serialized_parts(bytes: Seq<u8>) -> Result<(DynamicSerializer, Seq<u8>), Error> {
    if bytes.len() == 0 {
        Err(Error::Serialization(SerializationFault::Truncated))
    } else {
        match DynamicSerializer::of_number(bytes[0] as int) {
            Some(format) => Ok((format, bytes.subrange(1, bytes.len() as int))),
            None => Err(Error::Serialization(SerializationFault::UnknownFormat)),
        }
    }
}

/// Taking a blob of serialized data apart gives what it was made of.
pub proof fn lemma_serialized_round_trip(format: DynamicSerializer, data: Seq<u8>)
    ensures
        serialized_parts(serialized_blob(format, data)) == Ok::<_, Error>((format, data)),
{
    let blob = serialized_blob(format, data);
    assert(blob.subrange(1, blob.len() as int) =~= data);
}

/// Puts the format id before the serialized data.
pub fn frame_serialized(format: DynamicSerializer, data: Vec<u8>) -> (blob: Vec<u8>)
    ensures
        blob@ == serialized_blob(format, data@),
{
    let ghost given = data@;
    let mut data = data;
    let mut blob: Vec<u8> = Vec::new();
    blob.push(format.id());
    blob.append(&mut data);
    assert(blob@ =~= serialized_blob(format, given));
    blob
}

/// Reads the format id and hands out the serialized data behind it.
pub fn split_serialized(bytes: &[u8]) -> (r: Result<(DynamicSerializer, &[u8]), Error>)
    ensures
        match r {
            Ok((format, data)) => serialized_parts(bytes@) == Ok::<_, Error>((format, data@)),
            Err(e) => serialized_parts(bytes@) == Err::<(DynamicSerializer, Seq<u8>), _>(e),
        },
{
    if bytes.len() == 0 {
        return Err(Error::Serialization(SerializationFault::Truncated));
    }
    let format = match DynamicSerializer::from_primitive(bytes[0] as usize) {
        Ok(format) => format,
        Err(e) => {
            return Err(e);
        },
    };
    Ok((format, slice_subrange(bytes, 1, bytes.len())))
}

/// Data that travels serialized, with the serializer that it goes through.
#[derive(Clone)]
pub struct SerdePayload<T> {
    data: T,
    serializer: DynamicSerializer,
}

impl<T> SerdePayload<T> {
    /// The data held.
    pub closed spec fn value(&self) -> T {
        self.data
    }

    /// The serializer that the data goes through.
    pub closed spec fn format(&self) -> DynamicSerializer {
        self.serializer
    }

    /// Creates a new payload with a specified serializer.
    pub fn new(serializer: DynamicSerializer, data: T) -> (r: Self)
        ensures
            r.value() == data,
            r.format() == serializer,
    {
        Self { serializer, data }
    }

    /// Returns the data.
    pub fn data(self) -> (r: T)
        ensures
            r == self.value(),
    {
        self.data
    }

    /// The serializer that the data goes through.
    pub fn serializer(&self) -> (r: DynamicSerializer)
        ensures
            r == self.format(),
    {
        self.serializer
    }

    /// The blob of this payload, given its data as the serializer wrote it.
    pub fn frame(&self, serialized: Vec<u8>) -> (blob: Vec<u8>)
        ensures
            blob@ == serialized_blob(self.format(), serialized@),
    {
        frame_serialized(self.serializer, serialized)
    }
}

} // verus!
