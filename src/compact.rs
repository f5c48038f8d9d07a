//! The compact encoding: zig-zag varints for signed scalars, raw varints for
//! lengths, counts and sequence numbers, field ids as deltas packed beside the
//! type in one byte, and bool fields folded into their header.

use vstd::prelude::*;
use vstd::utf8::{decode_utf8, encode_utf8, valid_utf8};
use vstd::string::StringExecFns;
use crate::channel::TBufferChannel;
use crate::config::{
    check_container_size, container_error_message, container_fits, TConfiguration,
};
use crate::binary::{message_type_from_byte, string_fits, valid_kind_byte};
use crate::errors::{
    byte_array_message, fails_at_end, fails_with, fails_with_message, is_end_of_file,
    message_with_number, message_with_two_numbers, protocol_error, Error,
    ProtocolError, ProtocolErrorKind, Result,
};
use crate::types::{
    message_type_byte, TFieldIdentifier, TListIdentifier, TMapIdentifier, TMessageIdentifier,
    TMessageType, TSetIdentifier, TStructIdentifier, TType, TUuid,
};
use crate::wire::{
    le_u64, le_u64_value, leb128, read_le_u64, read_varint_i64, read_varint_u32, string_from_utf8,
    unzigzag, varint_len, varint_value, write_le_u64, write_varint_i64, write_varint_u64, zigzag,
};

verus! {

/// The protocol id that opens every compact message.
pub const COMPACT_PROTOCOL_ID: u8 = 0x82;

/// The version carried in the low five bits of the second header byte.
pub const COMPACT_VERSION: u8 = 0x01;

/// The low nibble that stands for a wire type. Inside lists, sets and maps
/// `Bool` is 0x01; as a field, the value itself takes its place (0x01 for
/// true, 0x02 for false). `Void` and `Utf7` have no compact form.
pub open spec fn compact_nibble(t: TType) -> u8 {
    match t {
        TType::Stop => 0x00,
        TType::Bool => 0x01,
        TType::I08 => 0x03,
        TType::I16 => 0x04,
        TType::I32 => 0x05,
        TType::I64 => 0x06,
        TType::Double => 0x07,
        TType::String => 0x08,
        TType::List => 0x09,
        TType::SetType => 0x0A,
        TType::MapType => 0x0B,
        TType::Struct => 0x0C,
        TType::Uuid => 0x0D,
        _ => 0x00,
    }
}

/// Whether the compact encoding has a form for values of type `t`.
pub open spec fn compact_encodable(t: TType) -> bool {
    t != TType::Void && t != TType::Utf7
}

/// The wire type of a nibble; both 0x01 and 0x02 read as `Bool`.
pub open spec fn compact_nibble_type(b: u8) -> Option<TType> {
    match b {
        0x00 => Some(TType::Stop),
        0x01 => Some(TType::Bool),
        0x02 => Some(TType::Bool),
        0x03 => Some(TType::I08),
        0x04 => Some(TType::I16),
        0x05 => Some(TType::I32),
        0x06 => Some(TType::I64),
        0x07 => Some(TType::Double),
        0x08 => Some(TType::String),
        0x09 => Some(TType::List),
        0x0A => Some(TType::SetType),
        0x0B => Some(TType::MapType),
        0x0C => Some(TType::Struct),
        0x0D => Some(TType::Uuid),
        _ => None,
    }
}

/// The fewest bytes that a value of type `t` takes in the compact encoding.
pub open spec fn compact_min_size(t: TType) -> nat {
    match t {
        TType::Double => 8,
        TType::Uuid => 16,
        _ => 1,
    }
}

/// A signed scalar: the varint of its zig-zag image.
pub open spec fn cmp_int(x: int) -> Seq<u8> {
    leb128(zigzag(x))
}

/// A byte string: its length as a raw varint, then its bytes.
pub open spec fn cmp_bytes(b: Seq<u8>) -> Seq<u8> {
    leb128(b.len()) + b
}

/// The second header byte: the kind in the top three bits, the version below.
pub open spec fn cmp_kind_version(kind: TMessageType) -> u8 {
    (message_type_byte(kind) * 32 + 1) as u8
}

/// A message header: id, kind and version, the sequence number as the raw
/// varint of its 32-bit pattern, then the name.
pub open spec fn cmp_message(name: Seq<u8>, kind: TMessageType, seq: i32) -> Seq<u8> {
    seq![COMPACT_PROTOCOL_ID, cmp_kind_version(kind)] + leb128((seq as u32) as nat) + cmp_bytes(
        name,
    )
}

/// A field header after a field with id `last`: a delta of 1 to 15 shares a
/// byte with the type nibble; otherwise the nibble stands alone and the id
/// follows as a zig-zag varint.
pub open spec fn cmp_field_header(nibble: u8, id: i16, last: i16) -> Seq<u8> {
    if 1 <= id - last <= 15 {
        seq![((id - last) * 16 + nibble) as u8]
    } else {
        seq![nibble] + cmp_int(id as int)
    }
}

/// A list or set header: a count below 15 shares a byte with the element
/// nibble; otherwise 0xF0 marks a raw varint count after it.
pub open spec fn cmp_sequence_header(t: TType, size: i32) -> Seq<u8> {
    if size <= 14 {
        seq![(size * 16 + compact_nibble(t)) as u8]
    } else {
        seq![(0xF0 + compact_nibble(t)) as u8] + leb128((size as u32) as nat)
    }
}

/// A map header: a lone zero when empty; otherwise the count as a raw varint,
/// then the key nibble and the value nibble in one byte.
pub open spec fn cmp_map_header(k: TType, v: TType, size: i32) -> Seq<u8> {
    if size == 0 {
        seq![0x00u8]
    } else {
        leb128((size as u32) as nat) + seq![(compact_nibble(k) * 16 + compact_nibble(v)) as u8]
    }
}

/// The byte of a bool outside a field.
pub open spec fn cmp_bool(b: bool) -> u8 {
    if b {
        0x01
    } else {
        0x02
    }
}

/// The raw varint at the front of `s`, read as a 32-bit pattern.
pub open spec fn cmp_u32(s: Seq<u8>) -> u32 {
    varint_value(s) as u32
}

/// Whether `s` starts with a whole byte string that `c` allows.
pub open spec fn cmp_bytes_ok(s: Seq<u8>, c: TConfiguration) -> bool {
    &&& 1 <= varint_len(s) <= 5
    &&& string_fits(c, cmp_u32(s) as int)
    &&& s.len() >= varint_len(s) + cmp_u32(s)
}

/// The bytes of the byte string at the front of `s`.
pub open spec fn cmp_payload(s: Seq<u8>) -> Seq<u8> {
    s.subrange(varint_len(s) as int, varint_len(s) + cmp_u32(s))
}

/// How many bytes the byte string at the front of `s` takes.
pub open spec fn cmp_bytes_size(s: Seq<u8>) -> int {
    varint_len(s) + cmp_u32(s)
}

/// Whether `s` starts with a whole UTF-8 string that `c` allows.
pub open spec fn cmp_string_ok(s: Seq<u8>, c: TConfiguration) -> bool {
    cmp_bytes_ok(s, c) && valid_utf8(cmp_payload(s))
}

/// What a reader of the byte string at the front of `s` reports when the
/// string is not whole or not allowed under `c`.
pub open spec fn cmp_bytes_failure<T>(r: Result<T>, s: Seq<u8>, c: TConfiguration) -> bool {
    &&& varint_len(s) == 0 && s.len() < 5 ==> fails_at_end(r)
    &&& 1 <= varint_len(s) <= 5 && !string_fits(c, cmp_u32(s) as int) ==> fails_with_message(
        r,
        ProtocolErrorKind::SizeLimit,
        byte_array_message(cmp_u32(s) as nat, c.string_limit()->0 as nat),
    )
    &&& 1 <= varint_len(s) <= 5 && string_fits(c, cmp_u32(s) as int) && s.len() < varint_len(s)
        + cmp_u32(s) ==> fails_at_end(r)
}

/// The same for a string, which must also be valid UTF-8.
pub open spec fn cmp_string_failure<T>(r: Result<T>, s: Seq<u8>, c: TConfiguration) -> bool {
    &&& cmp_bytes_failure(r, s, c)
    &&& cmp_bytes_ok(s, c) && !valid_utf8(cmp_payload(s)) ==> fails_with(
        r,
        ProtocolErrorKind::InvalidData,
    )
}

/// Where the name of the message header at the front of `s` starts.
pub open spec fn cmp_name_at(s: Seq<u8>) -> int {
    2 + varint_len(s.skip(2)) as int
}

/// Whether `s` starts with a message header that a reader accepts under `c`.
pub open spec fn cmp_message_ok(s: Seq<u8>, c: TConfiguration) -> bool {
    &&& s.len() >= 2
    &&& s[0] == COMPACT_PROTOCOL_ID
    &&& s[1] % 32 == COMPACT_VERSION
    &&& valid_kind_byte(s[1] / 32)
    &&& 1 <= varint_len(s.skip(2)) <= 5
    &&& cmp_string_ok(s.skip(cmp_name_at(s)), c)
}

/// Whether `s` starts with a field header that a reader whose last field id
/// is `last` accepts.
pub open spec fn cmp_field_ok(s: Seq<u8>, last: i16) -> bool {
    &&& s.len() >= 1
    &&& compact_nibble_type(s[0] % 16) is Some
    &&& s[0] % 16 == 0 || (s[0] / 16 != 0 && last + s[0] / 16 <= i16::MAX) || (s[0] / 16 == 0 && 1
        <= varint_len(s.skip(1)) <= 3)
}

/// The id of the field header at the front of `s`: the last id plus the delta,
/// or the zig-zag varint that follows a zero delta.
pub open spec fn cmp_field_id(s: Seq<u8>, last: i16) -> i16 {
    if s[0] / 16 != 0 {
        (last + s[0] / 16) as i16
    } else {
        (unzigzag(varint_value(s.skip(1))) as i64) as i16
    }
}

/// How many bytes the field header at the front of `s` takes.
pub open spec fn cmp_field_size(s: Seq<u8>) -> int {
    if s[0] % 16 == 0 || s[0] / 16 != 0 {
        1
    } else {
        1 + varint_len(s.skip(1)) as int
    }
}

/// The element count of the list or set header at the front of `s`.
pub open spec fn cmp_sequence_count(s: Seq<u8>) -> int {
    if s[0] / 16 != 15 {
        (s[0] / 16) as int
    } else {
        (cmp_u32(s.skip(1)) as i32) as int
    }
}

/// How many bytes the list or set header at the front of `s` takes.
pub open spec fn cmp_sequence_size(s: Seq<u8>) -> int {
    if s[0] / 16 != 15 {
        1
    } else {
        1 + varint_len(s.skip(1)) as int
    }
}

/// Whether `s` starts with a list or set header that `c` allows.
pub open spec fn cmp_sequence_ok(s: Seq<u8>, c: TConfiguration) -> bool {
    &&& s.len() >= 1
    &&& compact_nibble_type(s[0] % 16) is Some
    &&& s[0] / 16 == 15 ==> 1 <= varint_len(s.skip(1)) <= 5
    &&& container_fits(
        c,
        cmp_sequence_count(s),
        compact_min_size(compact_nibble_type(s[0] % 16)->0) as int,
    )
}

/// The element count of the map header at the front of `s`.
pub open spec fn cmp_map_count(s: Seq<u8>) -> int {
    (cmp_u32(s) as i32) as int
}

/// Whether `s` starts with a map header that `c` allows.
pub open spec fn cmp_map_ok(s: Seq<u8>, c: TConfiguration) -> bool {
    let k = varint_len(s) as int;
    &&& 1 <= k <= 5
    &&& cmp_map_count(s) != 0 ==> {
        &&& s.len() > k
        &&& compact_nibble_type(s[k] / 16) is Some
        &&& compact_nibble_type(s[k] % 16) is Some
        &&& container_fits(
            c,
            cmp_map_count(s),
            (compact_min_size(compact_nibble_type(s[k] / 16)->0) + compact_min_size(
                compact_nibble_type(s[k] % 16)->0,
            )) as int,
        )
    }
}

/// Reads compact-encoded values from an in-memory channel.
pub struct TCompactInputProtocol {
    last_read_field_id: i16,
    read_field_id_stack: Vec<i16>,
    pending_read_bool_value: Option<bool>,
    transport: TBufferChannel,
    config: TConfiguration,
}

impl TCompactInputProtocol {
    /// The bytes still to be read.
    pub closed spec fn input(&self) -> Seq<u8> {
        self.transport.unread()
    }

    /// The id of the last field read in the innermost open struct.
    pub closed spec fn last_id(&self) -> i16 {
        self.last_read_field_id
    }

    /// The last ids of the enclosing structs, innermost last; its length is
    /// how deep the reader is.
    pub closed spec fn id_stack(&self) -> Seq<i16> {
        self.read_field_id_stack@
    }

    /// The value of a bool field whose header was just read.
    pub closed spec fn pending(&self) -> Option<bool> {
        self.pending_read_bool_value
    }

    pub closed spec fn limits(&self) -> TConfiguration {
        self.config
    }

    /// Field ids, pending bool and limits are those of `other`.
    pub open spec fn same_state(&self, other: &Self) -> bool {
        &&& self.last_id() == other.last_id()
        &&& self.id_stack() == other.id_stack()
        &&& self.pending() == other.pending()
        &&& self.limits() == other.limits()
    }

    /// A reader with the default limits.
    pub fn new(transport: TBufferChannel) -> (r: TCompactInputProtocol)
        ensures
            r.input() == transport.unread(),
            r.last_id() == 0,
            r.id_stack() == Seq::<i16>::empty(),
            r.pending() is None,
            r.limits().is_default(),
    {
        Self::with_config(transport, TConfiguration::default())
    }

    pub fn with_config(transport: TBufferChannel, config: TConfiguration) -> (r:
        TCompactInputProtocol)
        ensures
            r.input() == transport.unread(),
            r.last_id() == 0,
            r.id_stack() == Seq::<i16>::empty(),
            r.pending() is None,
            r.limits() == config,
    {
        TCompactInputProtocol {
            last_read_field_id: 0,
            read_field_id_stack: Vec::new(),
            pending_read_bool_value: None,
            transport,
            config,
        }
    }

    /// The channel underneath, to look at what is left to read.
    pub fn transport(&self) -> (r: &TBufferChannel)
        ensures
            r.unread() == self.input(),
    {
        &self.transport
    }

    pub fn config(&self) -> (r: &TConfiguration)
        ensures
            *r == self.limits(),
    {
        &self.config
    }

    /// How many structs are open.
    pub fn recursion_depth(&self) -> (r: usize)
        ensures
            r == self.id_stack().len(),
    {
        self.read_field_id_stack.len()
    }

    fn check_recursion_depth(&self) -> (r: Result<()>)
        ensures
            r is Ok <==> !(self.limits().depth_limit() matches Some(l) && self.id_stack().len()
                >= l),
            r is Err ==> fails_with(r, ProtocolErrorKind::DepthLimit),
    {
        if let Some(limit) = self.config.max_recursion_depth() {
            if self.read_field_id_stack.len() >= limit {
                let m = message_with_number("Maximum recursion depth ", limit as u128, " exceeded");
                return Err(Error::Protocol(ProtocolError::new(ProtocolErrorKind::DepthLimit, m)));
            }
        }
        Ok(())
    }

    /// An element type nibble and a count, checked against the limits.
    pub fn read_list_set_begin(&mut self) -> (r: Result<(TType, i32)>)
        ensures
            ({
                let s = old(self).input();
                &&& r is Ok <==> cmp_sequence_ok(s, old(self).limits())
                &&& r matches Ok((t, n)) ==> {
                    &&& compact_nibble_type(s[0] % 16) == Some(t)
                    &&& n == cmp_sequence_count(s)
                    &&& final(self).input() == s.skip(cmp_sequence_size(s))
                }
                &&& s.len() >= 1 && compact_nibble_type(s[0] % 16) is None ==> fails_with(
                    r,
                    ProtocolErrorKind::InvalidData,
                )
                &&& s.len() >= 1 && compact_nibble_type(s[0] % 16) is Some && (s[0] / 16 == 15
                    ==> 1 <= varint_len(s.skip(1)) <= 5) && cmp_sequence_count(s) < 0 ==> fails_with(
                    r,
                    ProtocolErrorKind::NegativeSize,
                )
                &&& s.len() >= 1 && compact_nibble_type(s[0] % 16) is Some && (s[0] / 16 == 15
                    ==> 1 <= varint_len(s.skip(1)) <= 5) && cmp_sequence_count(s) >= 0
                    && !cmp_sequence_ok(s, old(self).limits()) ==> fails_with_message(
                    r,
                    ProtocolErrorKind::SizeLimit,
                    container_error_message(
                        old(self).limits(),
                        cmp_sequence_count(s),
                        compact_min_size(compact_nibble_type(s[0] % 16)->0) as int,
                    ),
                )
                &&& s.len() == 0 || (compact_nibble_type(s[0] % 16) is Some && s[0] / 16 == 15
                    && varint_len(s.skip(1)) == 0 && s.len() < 6) ==> fails_at_end(r)
            }),
            final(self).same_state(old(self)),
    {
        let ghost s = self.input();
        let header = match self.transport.read_byte() {
            Ok(b) => b,
            Err(e) => return Err(e),
        };
        let element_type = match collection_u8_to_type(header % 16) {
            Ok(t) => t,
            Err(e) => return Err(e),
        };
        let possible_element_count = header / 16;
        let element_count: i32 = if possible_element_count != 15 {
            possible_element_count as i32
        } else {
            let v = match read_varint_u32(&mut self.transport) {
                Ok(v) => v as i32,
                Err(e) => return Err(e),
            };
            assert(s.skip(1).skip(varint_len(s.skip(1)) as int) =~= s.skip(
                1 + varint_len(s.skip(1)) as int,
            ));
            v
        };
        let min_element_size = compact_protocol_min_serialized_size(element_type);
        match check_container_size(&self.config, element_count, min_element_size) {
            Ok(()) => Ok((element_type, element_count)),
            Err(e) => Err(e),
        }
    }

    pub fn read_byte(&mut self) -> (r: Result<u8>)
        ensures
            r is Ok <==> old(self).input().len() >= 1,
            r matches Ok(b) ==> b == old(self).input()[0] && final(self).input() == old(
                self).input().skip(1),
            r matches Err(e) ==> is_end_of_file(e),
            final(self).same_state(old(self)),
    {
        self.transport.read_byte()
    }

    pub fn read_i8(&mut self) -> (r: Result<i8>)
        ensures
            r is Ok <==> old(self).input().len() >= 1,
            r matches Ok(v) ==> v as u8 == old(self).input()[0] && final(self).input() == old(
                self).input().skip(1),
            r matches Err(e) ==> is_end_of_file(e),
            final(self).same_state(old(self)),
    {
        match self.transport.read_byte() {
            Ok(b) => {
                assert((b as i8) as u8 == b) by (bit_vector);
                Ok(b as i8)
            },
            Err(e) => Err(e),
        }
    }

    /// A zig-zag varint of at most three bytes.
    pub fn read_i16(&mut self) -> (r: Result<i16>)
        ensures
            ({
                let s = old(self).input();
                &&& r is Ok <==> 1 <= varint_len(s) <= 3
                &&& r is Ok ==> varint_len(s) <= s.len()
                &&& varint_len(s) == 0 && s.len() < 3 ==> fails_at_end(r)
                &&& r matches Ok(v) ==> v == (unzigzag(varint_value(s)) as i64) as i16 && final(
                    self).input() == s.skip(varint_len(s) as int)
            }),
            final(self).same_state(old(self)),
    {
        match read_varint_i64(&mut self.transport, 3) {
            Ok(v) => Ok(v as i16),
            Err(e) => Err(e),
        }
    }

    /// A zig-zag varint of at most five bytes.
    pub fn read_i32(&mut self) -> (r: Result<i32>)
        ensures
            ({
                let s = old(self).input();
                &&& r is Ok <==> 1 <= varint_len(s) <= 5
                &&& r is Ok ==> varint_len(s) <= s.len()
                &&& varint_len(s) == 0 && s.len() < 5 ==> fails_at_end(r)
                &&& r matches Ok(v) ==> v == (unzigzag(varint_value(s)) as i64) as i32 && final(
                    self).input() == s.skip(varint_len(s) as int)
            }),
            final(self).same_state(old(self)),
    {
        match read_varint_i64(&mut self.transport, 5) {
            Ok(v) => Ok(v as i32),
            Err(e) => Err(e),
        }
    }

    /// A zig-zag varint of at most ten bytes.
    pub fn read_i64(&mut self) -> (r: Result<i64>)
        ensures
            ({
                let s = old(self).input();
                &&& r is Ok <==> 1 <= varint_len(s) <= 10
                &&& r is Ok ==> varint_len(s) <= s.len()
                &&& varint_len(s) == 0 && s.len() < 10 ==> fails_at_end(r)
                &&& r matches Ok(v) ==> v == unzigzag(varint_value(s)) as i64 && final(self).input()
                    == s.skip(varint_len(s) as int)
            }),
            final(self).same_state(old(self)),
    {
        read_varint_i64(&mut self.transport, 10)
    }

    /// Reads a double as its IEEE-754 bit pattern, least significant byte first.
    pub fn read_double(&mut self) -> (r: Result<u64>)
        ensures
            r is Ok <==> old(self).input().len() >= 8,
            r matches Ok(v) ==> v == le_u64_value(old(self).input()) && final(self).input() == old(
                self).input().skip(8),
            r matches Err(e) ==> is_end_of_file(e),
            final(self).same_state(old(self)),
    {
        read_le_u64(&mut self.transport)
    }

    /// Sixteen raw bytes.
    pub fn read_uuid(&mut self) -> (r: Result<TUuid>)
        ensures
            r is Ok <==> old(self).input().len() >= 16,
            r matches Ok(u) ==> u.bytes@ == old(self).input().take(16) && final(self).input()
                == old(self).input().skip(16),
            r matches Err(e) ==> is_end_of_file(e),
            final(self).same_state(old(self)),
    {
        match self.transport.read_exact(16) {
            Ok(b) => {
                let bytes = [
                    b[0],
                    b[1],
                    b[2],
                    b[3],
                    b[4],
                    b[5],
                    b[6],
                    b[7],
                    b[8],
                    b[9],
                    b[10],
                    b[11],
                    b[12],
                    b[13],
                    b[14],
                    b[15],
                ];
                assert(bytes@ =~= b@);
                Ok(TUuid { bytes })
            },
            Err(e) => Err(e),
        }
    }

    /// A byte string: a raw varint length, then that many bytes.
    pub fn read_bytes(&mut self) -> (r: Result<Vec<u8>>)
        ensures
            ({
                let s = old(self).input();
                &&& r is Ok <==> cmp_bytes_ok(s, old(self).limits())
                &&& r matches Ok(b) ==> b@ == cmp_payload(s) && final(self).input() == s.skip(
                    cmp_bytes_size(s),
                )
                &&& cmp_bytes_failure(r, s, old(self).limits())
            }),
            final(self).same_state(old(self)),
    {
        let ghost s = self.input();
        let len = match read_varint_u32(&mut self.transport) {
            Ok(v) => v,
            Err(e) => return Err(e),
        };
        if let Some(max_size) = self.config.max_string_size() {
            if len as usize > max_size {
                let m = message_with_two_numbers(
                    "Byte array size ",
                    len as u128,
                    " exceeds maximum allowed size of ",
                    max_size as u128,
                );
                return Err(Error::Protocol(ProtocolError::new(ProtocolErrorKind::SizeLimit, m)));
            }
        }
        let ghost k = varint_len(s) as int;
        let b = match self.transport.read_exact(len as usize) {
            Ok(b) => b,
            Err(e) => return Err(e),
        };
        assert(s.skip(k).take(len as int) =~= s.subrange(k, k + len));
        assert(s.skip(k).skip(len as int) =~= s.skip(k + len));
        Ok(b)
    }

    /// A byte string that must be valid UTF-8.
    pub fn read_string(&mut self) -> (r: Result<String>)
        ensures
            ({
                let s = old(self).input();
                &&& r is Ok <==> cmp_string_ok(s, old(self).limits())
                &&& r matches Ok(t) ==> t@ == decode_utf8(cmp_payload(s)) && final(self).input()
                    == s.skip(cmp_bytes_size(s))
                &&& cmp_string_failure(r, s, old(self).limits())
            }),
            final(self).same_state(old(self)),
    {
        let bytes = match self.read_bytes() {
            Ok(b) => b,
            Err(e) => return Err(e),
        };
        match string_from_utf8(bytes) {
            Some(t) => Ok(t),
            None => Err(protocol_error(ProtocolErrorKind::InvalidData, "invalid UTF-8 in string")),
        }
    }

    /// A message header; afterwards field ids count from zero.
    pub fn read_message_begin(&mut self) -> (r: Result<TMessageIdentifier>)
        ensures
            ({
                let s = old(self).input();
                &&& r is Ok <==> cmp_message_ok(s, old(self).limits())
                &&& r matches Ok(m) ==> {
                    &&& m.name@ == decode_utf8(cmp_payload(s.skip(cmp_name_at(s))))
                    &&& message_type_byte(m.message_type) == s[1] / 32
                    &&& m.sequence_number == cmp_u32(s.skip(2)) as i32
                    &&& final(self).input() == s.skip(
                        cmp_name_at(s) + cmp_bytes_size(s.skip(cmp_name_at(s))),
                    )
                    &&& final(self).last_id() == 0
                }
                &&& s.len() >= 1 && s[0] != COMPACT_PROTOCOL_ID ==> fails_with(
                    r,
                    ProtocolErrorKind::BadVersion,
                )
                &&& s.len() >= 2 && s[0] == COMPACT_PROTOCOL_ID && s[1] % 32 != COMPACT_VERSION
                    ==> fails_with(r, ProtocolErrorKind::BadVersion)
                &&& s.len() >= 2 && s[0] == COMPACT_PROTOCOL_ID && s[1] % 32 == COMPACT_VERSION
                    && !valid_kind_byte(s[1] / 32) ==> fails_with(r, ProtocolErrorKind::InvalidData)
                &&& s.len() == 0 || (s.len() == 1 && s[0] == COMPACT_PROTOCOL_ID) ==> fails_at_end(r)
                &&& s.len() >= 2 && s[0] == COMPACT_PROTOCOL_ID && s[1] % 32 == COMPACT_VERSION
                    && valid_kind_byte(s[1] / 32) ==> {
                    &&& varint_len(s.skip(2)) == 0 && s.len() < 7 ==> fails_at_end(r)
                    &&& 1 <= varint_len(s.skip(2)) <= 5 ==> cmp_string_failure(
                        r,
                        s.skip(cmp_name_at(s)),
                        old(self).limits(),
                    )
                }
            }),
            final(self).id_stack() == old(self).id_stack(),
            final(self).pending() == old(self).pending(),
            final(self).limits() == old(self).limits(),
    {
        let ghost s = self.input();
        let compact_id = match self.transport.read_byte() {
            Ok(b) => b,
            Err(e) => return Err(e),
        };
        if compact_id != COMPACT_PROTOCOL_ID {
            let m = message_with_number("invalid compact protocol header ", compact_id as u128, "");
            return Err(Error::Protocol(ProtocolError::new(ProtocolErrorKind::BadVersion, m)));
        }
        let type_and_version = match self.transport.read_byte() {
            Ok(b) => b,
            Err(e) => return Err(e),
        };
        assert(s.skip(1)[0] == s[1]);
        let received_version = type_and_version % 32;
        if received_version != COMPACT_VERSION {
            let m = message_with_number(
                "cannot process compact protocol version ",
                received_version as u128,
                "",
            );
            return Err(Error::Protocol(ProtocolError::new(ProtocolErrorKind::BadVersion, m)));
        }
        let message_type = match message_type_from_byte(type_and_version / 32) {
            Ok(k) => k,
            Err(e) => return Err(e),
        };
        assert(s.skip(1).skip(1) =~= s.skip(2));
        let sequence_number = match read_varint_u32(&mut self.transport) {
            Ok(v) => v as i32,
            Err(e) => return Err(e),
        };
        assert(s.skip(2).skip(varint_len(s.skip(2)) as int) =~= s.skip(cmp_name_at(s)));
        let name = match self.read_string() {
            Ok(n) => n,
            Err(e) => return Err(e),
        };
        assert(s.skip(cmp_name_at(s)).skip(cmp_bytes_size(s.skip(cmp_name_at(s)))) =~= s.skip(
            cmp_name_at(s) + cmp_bytes_size(s.skip(cmp_name_at(s))),
        ));
        self.last_read_field_id = 0;
        Ok(TMessageIdentifier { name, message_type, sequence_number })
    }

    /// Nothing to read.
    pub fn read_message_end(&mut self) -> (r: Result<()>)
        ensures
            r is Ok,
            final(self).input() == old(self).input(),
            final(self).same_state(old(self)),
    {
        Ok(())
    }

    /// Nothing to read; field ids count from zero inside the struct, unless the
    /// struct would pass the depth cap.
    pub fn read_struct_begin(&mut self) -> (r: Result<Option<TStructIdentifier>>)
        ensures
            r is Ok <==> !(old(self).limits().depth_limit() matches Some(l) && old(
                self).id_stack().len() >= l),
            r matches Ok(v) ==> v is None && final(self).id_stack() == old(self).id_stack().push(
                old(self).last_id(),
            ) && final(self).last_id() == 0,
            r is Err ==> fails_with(r, ProtocolErrorKind::DepthLimit) && final(self).same_state(
                old(self),
            ),
            final(self).input() == old(self).input(),
            final(self).pending() == old(self).pending(),
            final(self).limits() == old(self).limits(),
    {
        match self.check_recursion_depth() {
            Ok(()) => {},
            Err(e) => return Err(e),
        }
        self.read_field_id_stack.push(self.last_read_field_id);
        self.last_read_field_id = 0;
        Ok(None)
    }

    /// Nothing to read; the enclosing struct's last field id comes back.
    pub fn read_struct_end(&mut self) -> (r: Result<()>)
        requires
            old(self).id_stack().len() > 0,
        ensures
            r is Ok,
            final(self).input() == old(self).input(),
            final(self).id_stack() == old(self).id_stack().drop_last(),
            final(self).last_id() == old(self).id_stack().last(),
            final(self).pending() == old(self).pending(),
            final(self).limits() == old(self).limits(),
    {
        let last = match self.read_field_id_stack.pop() {
            Some(id) => id,
            None => vstd::pervasive::unreached(),
        };
        self.last_read_field_id = last;
        Ok(())
    }

    /// A field header. A bool field's value comes with it and waits for
    /// `read_bool`; Stop carries no id.
    pub fn read_field_begin(&mut self) -> (r: Result<TFieldIdentifier>)
        ensures
            ({
                let s = old(self).input();
                let last = old(self).last_id();
                &&& r is Ok <==> cmp_field_ok(s, last)
                &&& r matches Ok(f) ==> {
                    &&& f.name is None
                    &&& compact_nibble_type(s[0] % 16) == Some(f.field_type)
                    &&& final(self).input() == s.skip(cmp_field_size(s))
                    &&& final(self).pending() == if s[0] % 16 == 1 {
                        Some(true)
                    } else if s[0] % 16 == 2 {
                        Some(false)
                    } else {
                        None::<bool>
                    }
                    &&& f.field_type == TType::Stop ==> f.id is None && final(self).last_id()
                        == last
                    &&& f.field_type != TType::Stop ==> f.id == Some(cmp_field_id(s, last)) && final(
                        self).last_id() == cmp_field_id(s, last)
                }
                &&& s.len() >= 1 && compact_nibble_type(s[0] % 16) is None ==> fails_with(
                    r,
                    ProtocolErrorKind::InvalidData,
                )
                &&& s.len() == 0 || (compact_nibble_type(s[0] % 16) is Some && s[0] % 16 != 0 && s[0]
                    / 16 == 0 && varint_len(s.skip(1)) == 0 && s.len() < 4) ==> fails_at_end(r)
            }),
            final(self).id_stack() == old(self).id_stack(),
            final(self).limits() == old(self).limits(),
    {
        let ghost s = self.input();
        let header = match self.transport.read_byte() {
            Ok(b) => b,
            Err(e) => return Err(e),
        };
        let field_delta = header / 16;
        let nibble = header % 16;
        let field_type = match collection_u8_to_type(nibble) {
            Ok(t) => t,
            Err(e) => return Err(e),
        };
        if nibble == 0 {
            self.pending_read_bool_value = None;
            return Ok(TFieldIdentifier { name: None, field_type: TType::Stop, id: None });
        }
        if field_delta != 0 {
            if self.last_read_field_id as i32 + field_delta as i32 > i16::MAX as i32 {
                return Err(protocol_error(ProtocolErrorKind::InvalidData, "field id overflows"));
            }
            self.last_read_field_id = self.last_read_field_id + field_delta as i16;
        } else {
            let id = match self.read_i16() {
                Ok(v) => v,
                Err(e) => return Err(e),
            };
            assert(s.skip(1).skip(varint_len(s.skip(1)) as int) =~= s.skip(
                1 + varint_len(s.skip(1)) as int,
            ));
            self.last_read_field_id = id;
        }
        self.pending_read_bool_value = if nibble == 1 {
            Some(true)
        } else if nibble == 2 {
            Some(false)
        } else {
            None
        };
        Ok(TFieldIdentifier { name: None, field_type, id: Some(self.last_read_field_id) })
    }

    /// Nothing to read.
    pub fn read_field_end(&mut self) -> (r: Result<()>)
        ensures
            r is Ok,
            final(self).input() == old(self).input(),
            final(self).same_state(old(self)),
    {
        Ok(())
    }

    /// The value of the bool field just begun, or one byte: 0x01 is true,
    /// 0x02 and 0x00 are false.
    pub fn read_bool(&mut self) -> (r: Result<bool>)
        ensures
            ({
                let s = old(self).input();
                &&& old(self).pending() matches Some(v) ==> r == Ok::<bool, Error>(v) && final(
                    self).input() == s
                &&& old(self).pending() is None ==> {
                    &&& r is Ok <==> s.len() >= 1 && s[0] <= 2
                    &&& r matches Ok(v) ==> v == (s[0] == 1) && final(self).input() == s.skip(1)
                    &&& s.len() >= 1 && s[0] > 2 ==> fails_with(r, ProtocolErrorKind::InvalidData)
                }
            }),
            final(self).pending() is None,
            final(self).last_id() == old(self).last_id(),
            final(self).id_stack() == old(self).id_stack(),
            final(self).limits() == old(self).limits(),
    {
        match self.pending_read_bool_value {
            Some(b) => {
                self.pending_read_bool_value = None;
                Ok(b)
            },
            None => {
                let b = match self.transport.read_byte() {
                    Ok(b) => b,
                    Err(e) => return Err(e),
                };
                match b {
                    0x00 => Ok(false),
                    0x01 => Ok(true),
                    0x02 => Ok(false),
                    _ => {
                        let m = message_with_number("cannot convert ", b as u128, " into bool");
                        Err(Error::Protocol(ProtocolError::new(ProtocolErrorKind::InvalidData, m)))
                    },
                }
            },
        }
    }

    /// A list header.
    pub fn read_list_begin(&mut self) -> (r: Result<TListIdentifier>)
        ensures
            ({
                let s = old(self).input();
                &&& r is Ok <==> cmp_sequence_ok(s, old(self).limits())
                &&& r matches Ok(l) ==> {
                    &&& compact_nibble_type(s[0] % 16) == Some(l.element_type)
                    &&& l.size == cmp_sequence_count(s)
                    &&& final(self).input() == s.skip(cmp_sequence_size(s))
                }
                &&& s.len() >= 1 && compact_nibble_type(s[0] % 16) is None ==> fails_with(
                    r,
                    ProtocolErrorKind::InvalidData,
                )
                &&& s.len() >= 1 && compact_nibble_type(s[0] % 16) is Some && (s[0] / 16 == 15
                    ==> 1 <= varint_len(s.skip(1)) <= 5) && cmp_sequence_count(s) < 0 ==> fails_with(
                    r,
                    ProtocolErrorKind::NegativeSize,
                )
                &&& s.len() >= 1 && compact_nibble_type(s[0] % 16) is Some && (s[0] / 16 == 15
                    ==> 1 <= varint_len(s.skip(1)) <= 5) && cmp_sequence_count(s) >= 0
                    && !cmp_sequence_ok(s, old(self).limits()) ==> fails_with_message(
                    r,
                    ProtocolErrorKind::SizeLimit,
                    container_error_message(
                        old(self).limits(),
                        cmp_sequence_count(s),
                        compact_min_size(compact_nibble_type(s[0] % 16)->0) as int,
                    ),
                )
                &&& s.len() == 0 || (compact_nibble_type(s[0] % 16) is Some && s[0] / 16 == 15
                    && varint_len(s.skip(1)) == 0 && s.len() < 6) ==> fails_at_end(r)
            }),
            final(self).same_state(old(self)),
    {
        match self.read_list_set_begin() {
            Ok((element_type, size)) => Ok(TListIdentifier { element_type, size }),
            Err(e) => Err(e),
        }
    }

    /// Nothing to read.
    pub fn read_list_end(&mut self) -> (r: Result<()>)
        ensures
            r is Ok,
            final(self).input() == old(self).input(),
            final(self).same_state(old(self)),
    {
        Ok(())
    }

    /// A set header, laid out as a list header.
    pub fn read_set_begin(&mut self) -> (r: Result<TSetIdentifier>)
        ensures
            ({
                let s = old(self).input();
                &&& r is Ok <==> cmp_sequence_ok(s, old(self).limits())
                &&& r matches Ok(l) ==> {
                    &&& compact_nibble_type(s[0] % 16) == Some(l.element_type)
                    &&& l.size == cmp_sequence_count(s)
                    &&& final(self).input() == s.skip(cmp_sequence_size(s))
                }
                &&& s.len() >= 1 && compact_nibble_type(s[0] % 16) is None ==> fails_with(
                    r,
                    ProtocolErrorKind::InvalidData,
                )
                &&& s.len() >= 1 && compact_nibble_type(s[0] % 16) is Some && (s[0] / 16 == 15
                    ==> 1 <= varint_len(s.skip(1)) <= 5) && cmp_sequence_count(s) < 0 ==> fails_with(
                    r,
                    ProtocolErrorKind::NegativeSize,
                )
                &&& s.len() >= 1 && compact_nibble_type(s[0] % 16) is Some && (s[0] / 16 == 15
                    ==> 1 <= varint_len(s.skip(1)) <= 5) && cmp_sequence_count(s) >= 0
                    && !cmp_sequence_ok(s, old(self).limits()) ==> fails_with_message(
                    r,
                    ProtocolErrorKind::SizeLimit,
                    container_error_message(
                        old(self).limits(),
                        cmp_sequence_count(s),
                        compact_min_size(compact_nibble_type(s[0] % 16)->0) as int,
                    ),
                )
                &&& s.len() == 0 || (compact_nibble_type(s[0] % 16) is Some && s[0] / 16 == 15
                    && varint_len(s.skip(1)) == 0 && s.len() < 6) ==> fails_at_end(r)
            }),
            final(self).same_state(old(self)),
    {
        match self.read_list_set_begin() {
            Ok((element_type, size)) => Ok(TSetIdentifier { element_type, size }),
            Err(e) => Err(e),
        }
    }

    /// Nothing to read.
    pub fn read_set_end(&mut self) -> (r: Result<()>)
        ensures
            r is Ok,
            final(self).input() == old(self).input(),
            final(self).same_state(old(self)),
    {
        Ok(())
    }

    /// A map header; an empty map carries no key or value type.
    pub fn read_map_begin(&mut self) -> (r: Result<TMapIdentifier>)
        ensures
            ({
                let s = old(self).input();
                let k = varint_len(s) as int;
                &&& r is Ok <==> cmp_map_ok(s, old(self).limits())
                &&& r matches Ok(m) ==> {
                    &&& m.size == cmp_map_count(s)
                    &&& m.size == 0 ==> m.key_type is None && m.value_type is None && final(
                        self).input() == s.skip(k)
                    &&& m.size != 0 ==> m.key_type == compact_nibble_type(s[k] / 16)
                        && m.value_type == compact_nibble_type(s[k] % 16) && final(self).input()
                        == s.skip(k + 1)
                }
                &&& 1 <= k <= 5 && cmp_map_count(s) < 0 && s.len() > k && compact_nibble_type(
                    s[k] / 16,
                ) is Some && compact_nibble_type(s[k] % 16) is Some ==> fails_with(
                    r,
                    ProtocolErrorKind::NegativeSize,
                )
                &&& 1 <= k <= 5 && cmp_map_count(s) != 0 && s.len() > k && !(compact_nibble_type(
                    s[k] / 16,
                ) is Some && compact_nibble_type(s[k] % 16) is Some) ==> fails_with(
                    r,
                    ProtocolErrorKind::InvalidData,
                )
                &&& 1 <= k <= 5 && cmp_map_count(s) > 0 && s.len() > k && compact_nibble_type(
                    s[k] / 16,
                ) is Some && compact_nibble_type(s[k] % 16) is Some && !cmp_map_ok(
                    s,
                    old(self).limits(),
                ) ==> fails_with_message(
                    r,
                    ProtocolErrorKind::SizeLimit,
                    container_error_message(
                        old(self).limits(),
                        cmp_map_count(s),
                        (compact_min_size(compact_nibble_type(s[k] / 16)->0) + compact_min_size(
                            compact_nibble_type(s[k] % 16)->0,
                        )) as int,
                    ),
                )
                &&& varint_len(s) == 0 && s.len() < 5 ==> fails_at_end(r)
                &&& 1 <= k <= 5 && cmp_map_count(s) != 0 && s.len() == k ==> fails_at_end(r)
            }),
            final(self).same_state(old(self)),
    {
        let ghost s = self.input();
        let element_count = match read_varint_u32(&mut self.transport) {
            Ok(v) => v as i32,
            Err(e) => return Err(e),
        };
        if element_count == 0 {
            return Ok(TMapIdentifier { key_type: None, value_type: None, size: 0 });
        }
        let ghost k = varint_len(s) as int;
        let type_header = match self.transport.read_byte() {
            Ok(b) => b,
            Err(e) => return Err(e),
        };
        assert(s.skip(k)[0] == s[k]);
        assert(s.skip(k).skip(1) =~= s.skip(k + 1));
        let key_type = match collection_u8_to_type(type_header / 16) {
            Ok(t) => t,
            Err(e) => return Err(e),
        };
        let value_type = match collection_u8_to_type(type_header % 16) {
            Ok(t) => t,
            Err(e) => return Err(e),
        };
        let element_size = compact_protocol_min_serialized_size(key_type)
            + compact_protocol_min_serialized_size(value_type);
        match check_container_size(&self.config, element_count, element_size) {
            Ok(()) => Ok(
                TMapIdentifier {
                    key_type: Some(key_type),
                    value_type: Some(value_type),
                    size: element_count,
                },
            ),
            Err(e) => Err(e),
        }
    }

    /// Nothing to read.
    pub fn read_map_end(&mut self) -> (r: Result<()>)
        ensures
            r is Ok,
            final(self).input() == old(self).input(),
            final(self).same_state(old(self)),
    {
        Ok(())
    }

    /// The fewest bytes that a value of type `t` takes.
    pub fn min_serialized_size(&self, t: TType) -> (r: usize)
        ensures
            r == compact_min_size(t),
    {
        compact_protocol_min_serialized_size(t)
    }
}

/// Makes compact readers.
#[derive(Default)]
pub struct TCompactInputProtocolFactory;

impl TCompactInputProtocolFactory {
    pub fn new() -> (r: TCompactInputProtocolFactory) {
        TCompactInputProtocolFactory {  }
    }

    /// A reader with the default limits over `transport`.
    pub fn create(&self, transport: TBufferChannel) -> (r: TCompactInputProtocol)
        ensures
            r.input() == transport.unread(),
            r.last_id() == 0,
            r.id_stack() == Seq::<i16>::empty(),
            r.pending() is None,
            r.limits().is_default(),
    {
        TCompactInputProtocol::new(transport)
    }
}

/// Writes compact-encoded values to an in-memory channel.
pub struct TCompactOutputProtocol {
    last_write_field_id: i16,
    write_field_id_stack: Vec<i16>,
    pending_write_bool_field_id: Option<i16>,
    transport: TBufferChannel,
}

impl TCompactOutputProtocol {
    /// The bytes written so far.
    pub closed spec fn output(&self) -> Seq<u8> {
        self.transport.written()
    }

    /// The id of the last field written in the innermost open struct.
    pub closed spec fn last_id(&self) -> i16 {
        self.last_write_field_id
    }

    /// The last ids of the enclosing structs, innermost last.
    pub closed spec fn id_stack(&self) -> Seq<i16> {
        self.write_field_id_stack@
    }

    /// The id of a bool field whose header waits for its value.
    pub closed spec fn pending(&self) -> Option<i16> {
        self.pending_write_bool_field_id
    }

    /// Field ids and the pending bool are those of `other`.
    pub open spec fn same_fields(&self, other: &Self) -> bool {
        &&& self.last_id() == other.last_id()
        &&& self.id_stack() == other.id_stack()
        &&& self.pending() == other.pending()
    }

    pub fn new(transport: TBufferChannel) -> (r: TCompactOutputProtocol)
        ensures
            r.output() == transport.written(),
            r.last_id() == 0,
            r.id_stack() == Seq::<i16>::empty(),
            r.pending() is None,
    {
        TCompactOutputProtocol {
            last_write_field_id: 0,
            write_field_id_stack: Vec::new(),
            pending_write_bool_field_id: None,
            transport,
        }
    }

    /// The channel underneath, to look at what was written.
    pub fn transport(&self) -> (r: &TBufferChannel)
        ensures
            r.written() == self.output(),
    {
        &self.transport
    }

    /// Gives back the channel underneath.
    pub fn into_transport(self) -> (r: TBufferChannel)
        ensures
            r.written() == self.output(),
    {
        self.transport
    }

    fn write_field_header(&mut self, nibble: u8, field_id: i16)
        requires
            nibble < 16,
        ensures
            final(self).output() == old(self).output() + cmp_field_header(
                nibble,
                field_id,
                old(self).last_id(),
            ),
            final(self).last_id() == field_id,
            final(self).id_stack() == old(self).id_stack(),
            final(self).pending() == old(self).pending(),
    {
        let delta: i32 = field_id as i32 - self.last_write_field_id as i32;
        if 1 <= delta && delta <= 15 {
            self.transport.write_byte((delta as u8) * 16 + nibble);
            assert(self.output() =~= old(self).output() + cmp_field_header(
                nibble,
                field_id,
                old(self).last_id(),
            ));
        } else {
            self.transport.write_byte(nibble);
            write_varint_i64(&mut self.transport, field_id as i64);
            assert(self.output() =~= old(self).output() + cmp_field_header(
                nibble,
                field_id,
                old(self).last_id(),
            ));
        }
        self.last_write_field_id = field_id;
    }

    fn write_list_set_begin(&mut self, element_type: TType, element_count: i32)
        requires
            compact_encodable(element_type),
            element_count >= 0,
        ensures
            final(self).output() == old(self).output() + cmp_sequence_header(
                element_type,
                element_count,
            ),
            final(self).same_fields(old(self)),
    {
        let nibble = collection_type_to_u8(element_type);
        if element_count <= 14 {
            self.transport.write_byte((element_count as u8) * 16 + nibble);
        } else {
            self.transport.write_byte(0xF0 + nibble);
            write_varint_u64(&mut self.transport, element_count as u32 as u64);
        }
        assert(self.output() =~= old(self).output() + cmp_sequence_header(
            element_type,
            element_count,
        ));
    }

    /// Stops the program when a bool field still waits for its value: closing
    /// a scope then is a bug of the caller.
    fn assert_no_pending_bool_write(&self)
        requires
            self.pending() is None,
    {
        if self.pending_write_bool_field_id.is_some() {
            vstd::pervasive::unreached::<()>()
        }
    }

    /// The header: protocol id, kind and version, sequence number, name.
    pub fn write_message_begin(&mut self, identifier: &TMessageIdentifier) -> (r: Result<()>)
        requires
            encode_utf8(identifier.name@).len() <= u32::MAX,
        ensures
            r is Ok,
            final(self).output() == old(self).output() + cmp_message(
                encode_utf8(identifier.name@),
                identifier.message_type,
                identifier.sequence_number,
            ),
            final(self).same_fields(old(self)),
    {
        let kind = identifier.message_type.to_u8();
        self.transport.write_byte(COMPACT_PROTOCOL_ID);
        self.transport.write_byte(kind * 32 + COMPACT_VERSION);
        write_varint_u64(&mut self.transport, identifier.sequence_number as u32 as u64);
        self.write_string(identifier.name.as_str());
        assert(self.output() =~= old(self).output() + cmp_message(
            encode_utf8(identifier.name@),
            identifier.message_type,
            identifier.sequence_number,
        ));
        Ok(())
    }

    /// Nothing to write; no bool field may wait for its value.
    pub fn write_message_end(&mut self) -> (r: Result<()>)
        requires
            old(self).pending() is None,
        ensures
            r is Ok,
            final(self).output() == old(self).output(),
            final(self).same_fields(old(self)),
    {
        self.assert_no_pending_bool_write();
        Ok(())
    }

    /// Nothing to write; field ids restart at zero inside the struct.
    pub fn write_struct_begin(&mut self, identifier: &TStructIdentifier) -> (r: Result<()>)
        ensures
            r is Ok,
            final(self).output() == old(self).output(),
            final(self).id_stack() == old(self).id_stack().push(old(self).last_id()),
            final(self).last_id() == 0,
            final(self).pending() == old(self).pending(),
    {
        self.write_field_id_stack.push(self.last_write_field_id);
        self.last_write_field_id = 0;
        Ok(())
    }

    /// Nothing to write; the enclosing struct's last field id comes back.
    pub fn write_struct_end(&mut self) -> (r: Result<()>)
        requires
            old(self).pending() is None,
            old(self).id_stack().len() > 0,
        ensures
            r is Ok,
            final(self).output() == old(self).output(),
            final(self).id_stack() == old(self).id_stack().drop_last(),
            final(self).last_id() == old(self).id_stack().last(),
            final(self).pending() is None,
    {
        self.assert_no_pending_bool_write();
        let last = match self.write_field_id_stack.pop() {
            Some(id) => id,
            None => vstd::pervasive::unreached(),
        };
        self.last_write_field_id = last;
        Ok(())
    }

    /// A field header. The header of a bool field waits for its value.
    pub fn write_field_begin(&mut self, identifier: &TFieldIdentifier) -> (r: Result<()>)
        requires
            old(self).pending() is None,
            compact_encodable(identifier.field_type),
            identifier.field_type != TType::Stop ==> identifier.id is Some,
        ensures
            r is Ok,
            final(self).id_stack() == old(self).id_stack(),
            identifier.field_type == TType::Bool ==> {
                &&& final(self).output() == old(self).output()
                &&& final(self).pending() == identifier.id
                &&& final(self).last_id() == old(self).last_id()
            },
            identifier.field_type == TType::Stop ==> final(self).output() == old(self).output()
                + seq![0x00u8] && final(self).same_fields(old(self)),
            identifier.field_type != TType::Bool && identifier.field_type != TType::Stop ==> {
                &&& final(self).output() == old(self).output() + cmp_field_header(
                    compact_nibble(identifier.field_type),
                    identifier.id->0,
                    old(self).last_id(),
                )
                &&& final(self).last_id() == identifier.id->0
                &&& final(self).pending() is None
            },
    {
        match identifier.field_type {
            TType::Bool => {
                self.assert_no_pending_bool_write();
                self.pending_write_bool_field_id = identifier.id;
            },
            TType::Stop => {
                self.transport.write_byte(0x00);
                assert(old(self).output().push(0x00u8) =~= old(self).output() + seq![0x00u8]);
            },
            _ => {
                let field_id = match identifier.id {
                    Some(id) => id,
                    None => vstd::pervasive::unreached(),
                };
                self.write_field_header(type_to_u8(identifier.field_type), field_id);
            },
        }
        Ok(())
    }

    /// Nothing to write; no bool field may wait for its value.
    pub fn write_field_end(&mut self) -> (r: Result<()>)
        requires
            old(self).pending() is None,
        ensures
            r is Ok,
            final(self).output() == old(self).output(),
            final(self).same_fields(old(self)),
    {
        self.assert_no_pending_bool_write();
        Ok(())
    }

    /// The Stop byte; no bool field may wait for its value.
    pub fn write_field_stop(&mut self) -> (r: Result<()>)
        requires
            old(self).pending() is None,
        ensures
            r is Ok,
            final(self).output() == old(self).output() + seq![0x00u8],
            final(self).same_fields(old(self)),
    {
        self.assert_no_pending_bool_write();
        self.write_byte(0x00)
    }

    /// The header of the waiting bool field with the value as its type, or,
    /// outside a field, one byte: 0x01 for true, 0x02 for false.
    pub fn write_bool(&mut self, b: bool) -> (r: Result<()>)
        ensures
            r is Ok,
            final(self).id_stack() == old(self).id_stack(),
            final(self).pending() is None,
            old(self).pending() matches Some(id) ==> final(self).output() == old(self).output()
                + cmp_field_header(cmp_bool(b), id, old(self).last_id()) && final(self).last_id()
                == id,
            old(self).pending() is None ==> final(self).output() == old(self).output() + seq![
                cmp_bool(b),
            ] && final(self).last_id() == old(self).last_id(),
    {
        let nibble: u8 = if b {
            0x01
        } else {
            0x02
        };
        match self.pending_write_bool_field_id {
            Some(field_id) => {
                self.pending_write_bool_field_id = None;
                self.write_field_header(nibble, field_id);
            },
            None => {
                self.transport.write_byte(nibble);
                assert(old(self).output().push(nibble) =~= old(self).output() + seq![nibble]);
            },
        }
        Ok(())
    }

    /// The length as a raw varint, then the bytes.
    pub fn write_bytes(&mut self, b: &[u8]) -> (r: Result<()>)
        requires
            b@.len() <= u32::MAX,
        ensures
            r is Ok,
            final(self).output() == old(self).output() + cmp_bytes(b@),
            final(self).same_fields(old(self)),
    {
        write_varint_u64(&mut self.transport, b.len() as u64);
        self.transport.write_all(b);
        assert(self.output() =~= old(self).output() + cmp_bytes(b@));
        Ok(())
    }

    pub fn write_i8(&mut self, i: i8) -> (r: Result<()>)
        ensures
            r is Ok,
            final(self).output() == old(self).output() + seq![i as u8],
            final(self).same_fields(old(self)),
    {
        self.write_byte(i as u8)
    }

    pub fn write_i16(&mut self, i: i16) -> (r: Result<()>)
        ensures
            r is Ok,
            final(self).output() == old(self).output() + cmp_int(i as int),
            final(self).same_fields(old(self)),
    {
        write_varint_i64(&mut self.transport, i as i64);
        Ok(())
    }

    pub fn write_i32(&mut self, i: i32) -> (r: Result<()>)
        ensures
            r is Ok,
            final(self).output() == old(self).output() + cmp_int(i as int),
            final(self).same_fields(old(self)),
    {
        write_varint_i64(&mut self.transport, i as i64);
        Ok(())
    }

    pub fn write_i64(&mut self, i: i64) -> (r: Result<()>)
        ensures
            r is Ok,
            final(self).output() == old(self).output() + cmp_int(i as int),
            final(self).same_fields(old(self)),
    {
        write_varint_i64(&mut self.transport, i);
        Ok(())
    }

    /// A double given as its IEEE-754 bit pattern, least significant byte first.
    pub fn write_double(&mut self, bits: u64) -> (r: Result<()>)
        ensures
            r is Ok,
            final(self).output() == old(self).output() + le_u64(bits),
            final(self).same_fields(old(self)),
    {
        write_le_u64(&mut self.transport, bits);
        Ok(())
    }

    /// The sixteen bytes of the UUID, unprefixed.
    pub fn write_uuid(&mut self, uuid: &TUuid) -> (r: Result<()>)
        ensures
            r is Ok,
            final(self).output() == old(self).output() + uuid.bytes@,
            final(self).same_fields(old(self)),
    {
        self.transport.write_all(&uuid.bytes);
        Ok(())
    }

    /// The UTF-8 bytes of `s` as a byte string.
    pub fn write_string(&mut self, s: &str) -> (r: Result<()>)
        requires
            encode_utf8(s@).len() <= u32::MAX,
        ensures
            r is Ok,
            final(self).output() == old(self).output() + cmp_bytes(encode_utf8(s@)),
            final(self).same_fields(old(self)),
    {
        self.write_bytes(s.as_bytes())
    }

    /// The list header.
    pub fn write_list_begin(&mut self, identifier: &TListIdentifier) -> (r: Result<()>)
        requires
            compact_encodable(identifier.element_type),
            identifier.size >= 0,
        ensures
            r is Ok,
            final(self).output() == old(self).output() + cmp_sequence_header(
                identifier.element_type,
                identifier.size,
            ),
            final(self).same_fields(old(self)),
    {
        self.write_list_set_begin(identifier.element_type, identifier.size);
        Ok(())
    }

    /// Nothing to write.
    pub fn write_list_end(&mut self) -> (r: Result<()>)
        ensures
            r is Ok,
            final(self).output() == old(self).output(),
            final(self).same_fields(old(self)),
    {
        Ok(())
    }

    /// The set header, laid out as a list header.
    pub fn write_set_begin(&mut self, identifier: &TSetIdentifier) -> (r: Result<()>)
        requires
            compact_encodable(identifier.element_type),
            identifier.size >= 0,
        ensures
            r is Ok,
            final(self).output() == old(self).output() + cmp_sequence_header(
                identifier.element_type,
                identifier.size,
            ),
            final(self).same_fields(old(self)),
    {
        self.write_list_set_begin(identifier.element_type, identifier.size);
        Ok(())
    }

    /// Nothing to write.
    pub fn write_set_end(&mut self) -> (r: Result<()>)
        ensures
            r is Ok,
            final(self).output() == old(self).output(),
            final(self).same_fields(old(self)),
    {
        Ok(())
    }

    /// The map header; the types must be given unless the map is empty.
    pub fn write_map_begin(&mut self, identifier: &TMapIdentifier) -> (r: Result<()>)
        requires
            identifier.size >= 0,
            identifier.size != 0 ==> (identifier.key_type matches Some(k) && compact_encodable(k)),
            identifier.size != 0 ==> (identifier.value_type matches Some(v) && compact_encodable(
                v,
            )),
        ensures
            r is Ok,
            identifier.size == 0 ==> final(self).output() == old(self).output() + seq![0x00u8],
            identifier.size != 0 ==> final(self).output() == old(self).output() + cmp_map_header(
                identifier.key_type->0,
                identifier.value_type->0,
                identifier.size,
            ),
            final(self).same_fields(old(self)),
    {
        if identifier.size == 0 {
            self.write_byte(0x00)
        } else {
            let key_type = match identifier.key_type {
                Some(t) => t,
                None => vstd::pervasive::unreached(),
            };
            let value_type = match identifier.value_type {
                Some(t) => t,
                None => vstd::pervasive::unreached(),
            };
            write_varint_u64(&mut self.transport, identifier.size as u32 as u64);
            let header = collection_type_to_u8(key_type) * 16 + collection_type_to_u8(value_type);
            self.transport.write_byte(header);
            assert(self.output() =~= old(self).output() + cmp_map_header(
                key_type,
                value_type,
                identifier.size,
            ));
            Ok(())
        }
    }

    /// Nothing to write.
    pub fn write_map_end(&mut self) -> (r: Result<()>)
        ensures
            r is Ok,
            final(self).output() == old(self).output(),
            final(self).same_fields(old(self)),
    {
        Ok(())
    }

    pub fn flush(&mut self) -> (r: Result<()>)
        ensures
            r is Ok,
            final(self).output() == old(self).output(),
            final(self).same_fields(old(self)),
    {
        self.transport.flush()
    }

    pub fn write_byte(&mut self, b: u8) -> (r: Result<()>)
        ensures
            r is Ok,
            final(self).output() == old(self).output() + seq![b],
            final(self).same_fields(old(self)),
    {
        self.transport.write_byte(b);
        assert(old(self).output().push(b) =~= old(self).output() + seq![b]);
        Ok(())
    }
}

/// Makes compact writers.
#[derive(Default)]
pub struct TCompactOutputProtocolFactory;

impl TCompactOutputProtocolFactory {
    pub fn new() -> (r: TCompactOutputProtocolFactory) {
        TCompactOutputProtocolFactory {  }
    }

    pub fn create(&self, transport: TBufferChannel) -> (r: TCompactOutputProtocol)
        ensures
            r.output() == transport.written(),
            r.last_id() == 0,
            r.id_stack() == Seq::<i16>::empty(),
            r.pending() is None,
    {
        TCompactOutputProtocol::new(transport)
    }
}

/// The nibble of an element, key or value type.
fn collection_type_to_u8(field_type: TType) -> (r: u8)
    requires
        compact_encodable(field_type),
    ensures
        r == compact_nibble(field_type),
        r < 16,
{
    match field_type {
        TType::Bool => 0x01,
        f => type_to_u8(f),
    }
}

/// The nibble of a field type other than `Bool`.
fn type_to_u8(field_type: TType) -> (r: u8)
    requires
        compact_encodable(field_type),
    ensures
        field_type != TType::Bool ==> r == compact_nibble(field_type),
        r < 16,
{
    match field_type {
        TType::Stop => 0x00,
        TType::I08 => 0x03,
        TType::I16 => 0x04,
        TType::I32 => 0x05,
        TType::I64 => 0x06,
        TType::Double => 0x07,
        TType::String => 0x08,
        TType::List => 0x09,
        TType::SetType => 0x0A,
        TType::MapType => 0x0B,
        TType::Struct => 0x0C,
        TType::Uuid => 0x0D,
        TType::Bool => 0x01,
        _ => vstd::pervasive::unreached(),
    }
}

/// The wire type of an element, key or value nibble.
fn collection_u8_to_type(b: u8) -> (r: Result<TType>)
    ensures
        r is Ok <==> compact_nibble_type(b) is Some,
        r matches Ok(t) ==> compact_nibble_type(b) == Some(t),
        compact_nibble_type(b) is None ==> fails_with(r, ProtocolErrorKind::InvalidData),
{
    match b {
        0x01 | 0x02 => Ok(TType::Bool),
        o => u8_to_type(o),
    }
}

/// The wire type of a scalar nibble; 0x01 and 0x02 are not in this table.
fn u8_to_type(b: u8) -> (r: Result<TType>)
    ensures
        r is Ok <==> compact_nibble_type(b) is Some && b != 1 && b != 2,
        r matches Ok(t) ==> compact_nibble_type(b) == Some(t),
        !(compact_nibble_type(b) is Some && b != 1 && b != 2) ==> fails_with(
            r,
            ProtocolErrorKind::InvalidData,
        ),
{
    match b {
        0x00 => Ok(TType::Stop),
        0x03 => Ok(TType::I08),
        0x04 => Ok(TType::I16),
        0x05 => Ok(TType::I32),
        0x06 => Ok(TType::I64),
        0x07 => Ok(TType::Double),
        0x08 => Ok(TType::String),
        0x09 => Ok(TType::List),
        0x0A => Ok(TType::SetType),
        0x0B => Ok(TType::MapType),
        0x0C => Ok(TType::Struct),
        0x0D => Ok(TType::Uuid),
        _ => {
            let m = message_with_number("cannot convert ", b as u128, " into TType");
            Err(Error::Protocol(ProtocolError::new(ProtocolErrorKind::InvalidData, m)))
        },
    }
}

/// The fewest bytes that a value of type `t` takes.
pub(crate) fn compact_protocol_min_serialized_size(field_type: TType) -> (r: usize)
    ensures
        r == compact_min_size(field_type),
{
    match field_type {
        TType::Double => 8,
        TType::Uuid => 16,
        _ => 1,
    }
}

} // verus!
