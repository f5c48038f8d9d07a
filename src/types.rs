//! The vocabulary shared by both codecs: wire types, message kinds and the
//! identifiers that frame messages, structs, fields and containers.

use vstd::prelude::*;

verus! {

/// The abstract type of a value on the wire.
#[derive(Clone, Copy, Debug, PartialEq, Eq, Hash, Structural)]
pub enum TType {
    Stop,
    Void,
    Bool,
    I08,
    Double,
    I16,
    I32,
    I64,
    String,
    Utf7,
    Struct,
    MapType,
    SetType,
    List,
    Uuid,
}

/// The kind of an RPC message.
#[derive(Clone, Copy, Debug, PartialEq, Eq, Hash, Structural)]
pub enum TMessageType {
    Call,
    Reply,
    Exception,
    OneWay,
}

/// The byte that stands for a message kind, the same in both codecs.
pub open spec fn message_type_byte(t: TMessageType) -> u8 {
    match t {
        TMessageType::Call => 1,
        TMessageType::Reply => 2,
        TMessageType::Exception => 3,
        TMessageType::OneWay => 4,
    }
}

impl TMessageType {
    /// The wire byte of this message kind.
    pub fn to_u8(self) -> (r: u8)
        ensures
            r == message_type_byte(self),
    {
        match self {
            TMessageType::Call => 1,
            TMessageType::Reply => 2,
            TMessageType::Exception => 3,
            TMessageType::OneWay => 4,
        }
    }

    /// The message kind that a wire byte stands for, if any.
    pub fn from_u8(b: u8) -> (r: Option<TMessageType>)
        ensures
            r matches Some(t) ==> message_type_byte(t) == b,
            r is None <==> !(1 <= b <= 4),
    {
        match b {
            1 => Some(TMessageType::Call),
            2 => Some(TMessageType::Reply),
            3 => Some(TMessageType::Exception),
            4 => Some(TMessageType::OneWay),
            _ => None,
        }
    }
}

/// A 16-byte universally unique identifier, kept as its bytes in RFC 4122 order.
#[derive(Clone, Copy, Debug, PartialEq, Eq, Hash)]
pub struct TUuid {
    pub bytes: [u8; 16],
}

impl TUuid {
    pub fn from_bytes(bytes: [u8; 16]) -> (r: TUuid)
        ensures
            r.bytes == bytes,
    {
        TUuid { bytes }
    }

    pub fn as_bytes(&self) -> (r: &[u8; 16])
        ensures
            *r == self.bytes,
    {
        &self.bytes
    }
}

/// Identifies a message: its name, its kind and its sequence number.
#[derive(Clone, Debug, PartialEq, Eq)]
pub struct TMessageIdentifier {
    pub name: String,
    pub message_type: TMessageType,
    pub sequence_number: i32,
}

impl TMessageIdentifier {
    pub fn new(name: &str, message_type: TMessageType, sequence_number: i32) -> (r:
        TMessageIdentifier)
        ensures
            r.name@ == name@,
            r.message_type == message_type,
            r.sequence_number == sequence_number,
    {
        TMessageIdentifier { name: name.to_owned(), message_type, sequence_number }
    }
}

/// Identifies a struct. Neither codec puts the name on the wire.
#[derive(Clone, Debug, PartialEq, Eq)]
pub struct TStructIdentifier {
    pub name: String,
}

impl TStructIdentifier {
    pub fn new(name: &str) -> (r: TStructIdentifier)
        ensures
            r.name@ == name@,
    {
        TStructIdentifier { name: name.to_owned() }
    }
}

/// Identifies a field of a struct. Decoders never fill in the name.
#[derive(Clone, Debug, PartialEq, Eq)]
pub struct TFieldIdentifier {
    pub name: Option<String>,
    pub field_type: TType,
    pub id: Option<i16>,
}

impl TFieldIdentifier {
    pub fn new(name: &str, field_type: TType, id: i16) -> (r: TFieldIdentifier)
        ensures
            r.name matches Some(n) && n@ == name@,
            r.field_type == field_type,
            r.id == Some(id),
    {
        TFieldIdentifier { name: Some(name.to_owned()), field_type, id: Some(id) }
    }
}

/// Identifies a list: the type of its elements and how many there are.
#[derive(Clone, Copy, Debug, PartialEq, Eq, Hash, Structural)]
pub struct TListIdentifier {
    pub element_type: TType,
    pub size: i32,
}

impl TListIdentifier {
    pub fn new(element_type: TType, size: i32) -> (r: TListIdentifier)
        ensures
            r.element_type == element_type,
            r.size == size,
    {
        TListIdentifier { element_type, size }
    }
}

/// Identifies a set: the type of its elements and how many there are.
#[derive(Clone, Copy, Debug, PartialEq, Eq, Hash, Structural)]
pub struct TSetIdentifier {
    pub element_type: TType,
    pub size: i32,
}

impl TSetIdentifier {
    pub fn new(element_type: TType, size: i32) -> (r: TSetIdentifier)
        ensures
            r.element_type == element_type,
            r.size == size,
    {
        TSetIdentifier { element_type, size }
    }
}

/// Identifies a map. A decoded empty map carries no key or value type.
#[derive(Clone, Copy, Debug, PartialEq, Eq, Hash, Structural)]
pub struct TMapIdentifier {
    pub key_type: Option<TType>,
    pub value_type: Option<TType>,
    pub size: i32,
}

impl TMapIdentifier {
    pub fn new(key_type: TType, value_type: TType, size: i32) -> (r: TMapIdentifier)
        ensures
            r.key_type == Some(key_type),
            r.value_type == Some(value_type),
            r.size == size,
    {
        TMapIdentifier { key_type: Some(key_type), value_type: Some(value_type), size }
    }
}

} // verus!
