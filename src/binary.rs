//! The binary encoding: big-endian fixed-width scalars, length-prefixed byte
//! strings, and an explicit type tag and 16-bit id in front of every field.

use vstd::prelude::*;
use vstd::utf8::{decode_utf8, encode_utf8, valid_utf8};
use vstd::string::StringExecFns;
use crate::channel::TBufferChannel;
use crate::config::{
    check_container_size, container_error_message, container_fits, TConfiguration,
};
use crate::errors::{
    byte_array_message, fails_at_end, fails_with, fails_with_message, is_end_of_file,
    message_with_number, message_with_two_numbers, protocol_error, Error,
    ProtocolError, ProtocolErrorKind, Result,
};
use crate::types::{
    message_type_byte, TFieldIdentifier, TListIdentifier, TMapIdentifier, TMessageIdentifier,
    TMessageType, TSetIdentifier, TStructIdentifier, TType, TUuid,
};
use crate::wire::{
    be_u16, be_u16_value, be_u32, be_u32_value, be_u64, be_u64_value, read_be_u16, read_be_u32,
    read_be_u64, string_from_utf8, write_be_u16, write_be_u32, write_be_u64,
};

verus! {

/// The tag of each wire type in the binary encoding.
pub open spec fn binary_type_byte(t: TType) -> u8 {
    match t {
        TType::Stop => 0x00,
        TType::Void => 0x01,
        TType::Bool => 0x02,
        TType::I08 => 0x03,
        TType::Double => 0x04,
        TType::I16 => 0x06,
        TType::I32 => 0x08,
        TType::I64 => 0x0A,
        TType::String => 0x0B,
        TType::Utf7 => 0x0B,
        TType::Struct => 0x0C,
        TType::MapType => 0x0D,
        TType::SetType => 0x0E,
        TType::List => 0x0F,
        TType::Uuid => 0x10,
    }
}

/// The wire type of a binary tag; 0x0B always reads as `String`.
pub open spec fn binary_byte_type(b: u8) -> Option<TType> {
    match b {
        0x00 => Some(TType::Stop),
        0x01 => Some(TType::Void),
        0x02 => Some(TType::Bool),
        0x03 => Some(TType::I08),
        0x04 => Some(TType::Double),
        0x06 => Some(TType::I16),
        0x08 => Some(TType::I32),
        0x0A => Some(TType::I64),
        0x0B => Some(TType::String),
        0x0C => Some(TType::Struct),
        0x0D => Some(TType::MapType),
        0x0E => Some(TType::SetType),
        0x0F => Some(TType::List),
        0x10 => Some(TType::Uuid),
        _ => None,
    }
}

/// The fewest bytes that a value of type `t` takes in the binary encoding.
pub open spec fn binary_min_size(t: TType) -> nat {
    match t {
        TType::Double => 8,
        TType::I16 => 2,
        TType::I32 => 4,
        TType::I64 => 8,
        TType::String => 4,
        TType::MapType => 4,
        TType::SetType => 4,
        TType::List => 4,
        TType::Uuid => 16,
        _ => 1,
    }
}

pub open spec fn bin_i16(x: i16) -> Seq<u8> {
    be_u16(x as u16)
}

pub open spec fn bin_i32(x: i32) -> Seq<u8> {
    be_u32(x as u32)
}

pub open spec fn bin_i64(x: i64) -> Seq<u8> {
    be_u64(x as u64)
}

/// A byte string: its length as a big-endian i32, then its bytes.
pub open spec fn bin_bytes(b: Seq<u8>) -> Seq<u8> {
    bin_i32(b.len() as i32) + b
}

/// A message header. The versioned form starts 0x80 0x01, then a byte that
/// readers ignore, then the kind; the other form puts the kind after the name.
pub open spec fn bin_message(
    versioned: bool,
    pad: u8,
    name: Seq<u8>,
    kind: TMessageType,
    seq: i32,
) -> Seq<u8> {
    if versioned {
        seq![0x80u8, 0x01u8, pad, message_type_byte(kind)] + bin_bytes(name) + bin_i32(seq)
    } else {
        bin_bytes(name) + seq![message_type_byte(kind)] + bin_i32(seq)
    }
}

/// A field header: the Stop tag alone, or a tag and an id.
pub open spec fn bin_field(t: TType, id: i16) -> Seq<u8> {
    if t == TType::Stop {
        seq![0x00u8]
    } else {
        seq![binary_type_byte(t)] + bin_i16(id)
    }
}

/// The length prefix at the front of `s`.
pub open spec fn bin_len(s: Seq<u8>) -> int {
    (be_u32_value(s) as i32) as int
}

/// Whether a byte string of `n` bytes is within the string cap of `c`.
pub open spec fn string_fits(c: TConfiguration, n: int) -> bool {
    c.string_limit() matches Some(m) ==> n <= m
}

/// Whether `s` starts with a whole byte string that `c` allows.
pub open spec fn bin_bytes_ok(s: Seq<u8>, c: TConfiguration) -> bool {
    &&& s.len() >= 4
    &&& bin_len(s) >= 0
    &&& string_fits(c, bin_len(s))
    &&& s.len() >= 4 + bin_len(s)
}

/// The bytes of the byte string at the front of `s`.
pub open spec fn bin_payload(s: Seq<u8>) -> Seq<u8> {
    s.subrange(4, 4 + bin_len(s))
}

/// Whether `s` starts with a whole UTF-8 string that `c` allows.
pub open spec fn bin_string_ok(s: Seq<u8>, c: TConfiguration) -> bool {
    bin_bytes_ok(s, c) && valid_utf8(bin_payload(s))
}

/// What a reader of the byte string at the front of `s` reports when the
/// string is not whole or not allowed under `c`.
pub open spec fn bin_bytes_failure<T>(r: Result<T>, s: Seq<u8>, c: TConfiguration) -> bool {
    &&& s.len() < 4 ==> fails_at_end(r)
    &&& s.len() >= 4 && bin_len(s) < 0 ==> fails_with(r, ProtocolErrorKind::NegativeSize)
    &&& s.len() >= 4 && bin_len(s) >= 0 && !string_fits(c, bin_len(s)) ==> fails_with_message(
        r,
        ProtocolErrorKind::SizeLimit,
        byte_array_message(bin_len(s) as nat, c.string_limit()->0 as nat),
    )
    &&& s.len() >= 4 && bin_len(s) >= 0 && string_fits(c, bin_len(s)) && s.len() < 4 + bin_len(s)
        ==> fails_at_end(r)
}

/// The same for a string, which must also be valid UTF-8.
pub open spec fn bin_string_failure<T>(r: Result<T>, s: Seq<u8>, c: TConfiguration) -> bool {
    &&& bin_bytes_failure(r, s, c)
    &&& bin_bytes_ok(s, c) && !valid_utf8(bin_payload(s)) ==> fails_with(
        r,
        ProtocolErrorKind::InvalidData,
    )
}

/// Where the sequence number of the message header at the front of `s` starts.
pub open spec fn bin_seq_at(s: Seq<u8>) -> int {
    if s[0] >= 128 {
        8 + bin_len(s.skip(4))
    } else {
        5 + bin_len(s)
    }
}

/// The kind byte of the message header at the front of `s`.
pub open spec fn bin_kind_byte(s: Seq<u8>) -> u8 {
    if s[0] >= 128 {
        s[3]
    } else {
        s[4 + bin_len(s)]
    }
}

/// The name bytes of the message header at the front of `s`.
pub open spec fn bin_name(s: Seq<u8>) -> Seq<u8> {
    if s[0] >= 128 {
        bin_payload(s.skip(4))
    } else {
        bin_payload(s)
    }
}

pub open spec fn valid_kind_byte(b: u8) -> bool {
    1 <= b <= 4
}

/// Whether `s` starts with a message header that a reader in the given mode
/// accepts under `c`.
pub open spec fn bin_message_ok(s: Seq<u8>, strict: bool, c: TConfiguration) -> bool {
    &&& s.len() >= 4
    &&& if s[0] >= 128 {
        &&& s[0] == 0x80 && s[1] == 0x01
        &&& valid_kind_byte(s[3])
        &&& bin_string_ok(s.skip(4), c)
    } else {
        &&& !strict
        &&& bin_string_ok(s, c)
        &&& s.len() >= 5 + bin_len(s)
        &&& valid_kind_byte(s[4 + bin_len(s)])
    }
    &&& s.len() >= bin_seq_at(s) + 4
}

/// Whether `s` starts with a list or set header that `c` allows.
pub open spec fn bin_sequence_ok(s: Seq<u8>, c: TConfiguration) -> bool {
    &&& s.len() >= 5
    &&& binary_byte_type(s[0]) is Some
    &&& container_fits(c, bin_len(s.skip(1)), binary_min_size(binary_byte_type(s[0])->0) as int)
}

/// Whether `s` starts with a map header that `c` allows.
pub open spec fn bin_map_ok(s: Seq<u8>, c: TConfiguration) -> bool {
    &&& s.len() >= 6
    &&& binary_byte_type(s[0]) is Some
    &&& binary_byte_type(s[1]) is Some
    &&& container_fits(
        c,
        bin_len(s.skip(2)),
        (binary_min_size(binary_byte_type(s[0])->0) + binary_min_size(binary_byte_type(s[1])->0)) as int,
    )
}

/// Reads binary-encoded values from an in-memory channel.
pub struct TBinaryInputProtocol {
    strict: bool,
    transport: TBufferChannel,
    config: TConfiguration,
    recursion_depth: usize,
}

impl TBinaryInputProtocol {
    /// Whether message headers must carry the version.
    pub closed spec fn is_strict(&self) -> bool {
        self.strict
    }

    pub closed spec fn limits(&self) -> TConfiguration {
        self.config
    }

    /// How many structs are open.
    pub closed spec fn depth(&self) -> nat {
        self.recursion_depth as nat
    }

    /// The bytes still to be read.
    pub closed spec fn input(&self) -> Seq<u8> {
        self.transport.unread()
    }

    /// Mode, limits and depth are those of `other`.
    pub open spec fn same_state(&self, other: &Self) -> bool {
        &&& self.is_strict() == other.is_strict()
        &&& self.limits() == other.limits()
        &&& self.depth() == other.depth()
    }

    /// A reader with the default limits.
    pub fn new(transport: TBufferChannel, strict: bool) -> (r: TBinaryInputProtocol)
        ensures
            r.input() == transport.unread(),
            r.is_strict() == strict,
            r.limits().is_default(),
            r.depth() == 0,
    {
        Self::with_config(transport, strict, TConfiguration::default())
    }

    pub fn with_config(transport: TBufferChannel, strict: bool, config: TConfiguration) -> (r:
        TBinaryInputProtocol)
        ensures
            r.input() == transport.unread(),
            r.is_strict() == strict,
            r.limits() == config,
            r.depth() == 0,
    {
        TBinaryInputProtocol { strict, transport, config, recursion_depth: 0 }
    }

    /// The channel underneath, to look at what is left to read.
    pub fn transport(&self) -> (r: &TBufferChannel)
        ensures
            r.unread() == self.input(),
    {
        &self.transport
    }

    pub fn recursion_depth(&self) -> (r: usize)
        ensures
            r == self.depth(),
    {
        self.recursion_depth
    }

    pub fn config(&self) -> (r: &TConfiguration)
        ensures
            *r == self.limits(),
    {
        &self.config
    }

    /// Whether message headers must carry the version.
    pub fn strict(&self) -> (r: bool)
        ensures
            r == self.is_strict(),
    {
        self.strict
    }

    fn check_recursion_depth(&self) -> (r: Result<()>)
        ensures
            r is Ok <==> !(self.limits().depth_limit() matches Some(l) && self.depth() >= l),
            r is Err ==> fails_with(r, ProtocolErrorKind::DepthLimit),
    {
        if let Some(limit) = self.config.max_recursion_depth() {
            if self.recursion_depth >= limit {
                let m = message_with_number("Maximum recursion depth ", limit as u128, " exceeded");
                return Err(Error::Protocol(ProtocolError::new(ProtocolErrorKind::DepthLimit, m)));
            }
        }
        Ok(())
    }

    pub fn read_byte(&mut self) -> (r: Result<u8>)
        ensures
            r is Ok <==> old(self).input().len() >= 1,
            r matches Ok(b) ==> b == old(self).input()[0] && final(self).input() == old(self).input().skip(1),
            r matches Err(e) ==> is_end_of_file(e),
            final(self).same_state(old(self)),
    {
        self.transport.read_byte()
    }

    pub fn read_i8(&mut self) -> (r: Result<i8>)
        ensures
            r is Ok <==> old(self).input().len() >= 1,
            r matches Ok(v) ==> v as u8 == old(self).input()[0] && final(self).input() == old(self).input().skip(1),
            r matches Err(e) ==> is_end_of_file(e),
            final(self).same_state(old(self)),
    {
        match self.transport.read_byte() {
            Ok(b) => {
                assert((b as i8) as u8 == b) by (bit_vector);
                Ok(b as i8)
            },
            Err(e) => Err(e),
        }
    }

    pub fn read_i16(&mut self) -> (r: Result<i16>)
        ensures
            r is Ok <==> old(self).input().len() >= 2,
            r matches Ok(v) ==> v == be_u16_value(old(self).input()) as i16 && final(self).input()
                == old(self).input().skip(2),
            r matches Err(e) ==> is_end_of_file(e),
            final(self).same_state(old(self)),
    {
        match read_be_u16(&mut self.transport) {
            Ok(v) => Ok(v as i16),
            Err(e) => Err(e),
        }
    }

    pub fn read_i32(&mut self) -> (r: Result<i32>)
        ensures
            r is Ok <==> old(self).input().len() >= 4,
            r matches Ok(v) ==> v == be_u32_value(old(self).input()) as i32 && final(self).input()
                == old(self).input().skip(4),
            r matches Err(e) ==> is_end_of_file(e),
            final(self).same_state(old(self)),
    {
        match read_be_u32(&mut self.transport) {
            Ok(v) => Ok(v as i32),
            Err(e) => Err(e),
        }
    }

    pub fn read_i64(&mut self) -> (r: Result<i64>)
        ensures
            r is Ok <==> old(self).input().len() >= 8,
            r matches Ok(v) ==> v == be_u64_value(old(self).input().take(8)) as i64 && final(self).input() == old(self).input().skip(8),
            r matches Err(e) ==> is_end_of_file(e),
            final(self).same_state(old(self)),
    {
        match read_be_u64(&mut self.transport) {
            Ok(v) => Ok(v as i64),
            Err(e) => Err(e),
        }
    }

    /// Reads a double as its IEEE-754 bit pattern.
    pub fn read_double(&mut self) -> (r: Result<u64>)
        ensures
            r is Ok <==> old(self).input().len() >= 8,
            r matches Ok(v) ==> v == be_u64_value(old(self).input().take(8)) && final(self).input() == old(self).input().skip(8),
            r matches Err(e) ==> is_end_of_file(e),
            final(self).same_state(old(self)),
    {
        read_be_u64(&mut self.transport)
    }

    /// Any byte but zero reads as true.
    pub fn read_bool(&mut self) -> (r: Result<bool>)
        ensures
            r is Ok <==> old(self).input().len() >= 1,
            r matches Ok(v) ==> v == (old(self).input()[0] != 0) && final(self).input() == old(self).input().skip(1),
            r matches Err(e) ==> is_end_of_file(e),
            final(self).same_state(old(self)),
    {
        match self.transport.read_byte() {
            Ok(b) => Ok(b != 0),
            Err(e) => Err(e),
        }
    }

    /// Sixteen raw bytes.
    pub fn read_uuid(&mut self) -> (r: Result<TUuid>)
        ensures
            r is Ok <==> old(self).input().len() >= 16,
            r matches Ok(u) ==> u.bytes@ == old(self).input().take(16) && final(self).input()
                == old(self).input().skip(16),
            r matches Err(e) ==> is_end_of_file(e),
            final(self).same_state(old(self)),
    {
        match self.transport.read_exact(16) {
            Ok(b) => {
                let bytes = [
                    b[0],
                    b[1],
                    b[2],
                    b[3],
                    b[4],
                    b[5],
                    b[6],
                    b[7],
                    b[8],
                    b[9],
                    b[10],
                    b[11],
                    b[12],
                    b[13],
                    b[14],
                    b[15],
                ];
                assert(bytes@ =~= b@);
                Ok(TUuid { bytes })
            },
            Err(e) => Err(e),
        }
    }

    /// A byte string: a big-endian i32 length, then that many bytes.
    pub fn read_bytes(&mut self) -> (r: Result<Vec<u8>>)
        ensures
            ({
                let s = old(self).input();
                &&& r is Ok <==> bin_bytes_ok(s, old(self).limits())
                &&& r matches Ok(b) ==> b@ == bin_payload(s) && final(self).input() == s.skip(
                    4 + bin_len(s),
                )
                &&& bin_bytes_failure(r, s, old(self).limits())
            }),
            final(self).same_state(old(self)),
    {
        let n = match read_be_u32(&mut self.transport) {
            Ok(v) => v as i32,
            Err(e) => return Err(e),
        };
        self.read_payload(n)
    }

    /// The bytes of a byte string whose length `n` was just read.
    fn read_payload(&mut self, n: i32) -> (r: Result<Vec<u8>>)
        ensures
            ({
                let s = old(self).input();
                &&& r is Ok <==> n >= 0 && string_fits(old(self).limits(), n as int) && s.len() >= n
                &&& r matches Ok(b) ==> b@ == s.take(n as int) && final(self).input() == s.skip(
                    n as int,
                )
                &&& n < 0 ==> fails_with(r, ProtocolErrorKind::NegativeSize)
                &&& n >= 0 && !string_fits(old(self).limits(), n as int) ==> fails_with_message(
                    r,
                    ProtocolErrorKind::SizeLimit,
                    byte_array_message(n as nat, old(self).limits().string_limit()->0 as nat),
                )
                &&& n >= 0 && string_fits(old(self).limits(), n as int) && s.len() < n
                    ==> fails_at_end(r)
            }),
            final(self).same_state(old(self)),
    {
        if n < 0 {
            let magnitude: i64 = 0i64 - (n as i64);
            let m = message_with_number("Negative byte array size: -", magnitude as u128, "");
            return Err(Error::Protocol(ProtocolError::new(ProtocolErrorKind::NegativeSize, m)));
        }
        if let Some(max_size) = self.config.max_string_size() {
            if n as usize > max_size {
                let m = message_with_two_numbers(
                    "Byte array size ",
                    n as u128,
                    " exceeds maximum allowed size of ",
                    max_size as u128,
                );
                return Err(Error::Protocol(ProtocolError::new(ProtocolErrorKind::SizeLimit, m)));
            }
        }
        self.transport.read_exact(n as usize)
    }

    /// A byte string that must be valid UTF-8.
    pub fn read_string(&mut self) -> (r: Result<String>)
        ensures
            ({
                let s = old(self).input();
                &&& r is Ok <==> bin_string_ok(s, old(self).limits())
                &&& r matches Ok(t) ==> t@ == decode_utf8(bin_payload(s)) && final(self).input()
                    == s.skip(4 + bin_len(s))
                &&& bin_string_failure(r, s, old(self).limits())
            }),
            final(self).same_state(old(self)),
    {
        let bytes = match self.read_bytes() {
            Ok(b) => b,
            Err(e) => return Err(e),
        };
        match string_from_utf8(bytes) {
            Some(t) => Ok(t),
            None => Err(protocol_error(ProtocolErrorKind::InvalidData, "invalid UTF-8 in string")),
        }
    }

    /// The kind byte of a message header.
    fn read_message_kind(&mut self) -> (r: Result<TMessageType>)
        ensures
            r is Ok <==> old(self).input().len() >= 1 && valid_kind_byte(old(self).input()[0]),
            r matches Ok(k) ==> message_type_byte(k) == old(self).input()[0] && final(self).input()
                == old(self).input().skip(1),
            old(self).input().len() >= 1 && !valid_kind_byte(old(self).input()[0]) ==> fails_with(
                r,
                ProtocolErrorKind::InvalidData,
            ),
            old(self).input().len() == 0 ==> fails_at_end(r),
            final(self).same_state(old(self)),
    {
        let b = match self.transport.read_byte() {
            Ok(b) => b,
            Err(e) => return Err(e),
        };
        message_type_from_byte(b)
    }

    /// A message header, in either form unless the reader is strict.
    pub fn read_message_begin(&mut self) -> (r: Result<TMessageIdentifier>)
        ensures
            ({
                let s = old(self).input();
                &&& r is Ok <==> bin_message_ok(s, old(self).is_strict(), old(self).limits())
                &&& r matches Ok(m) ==> {
                    &&& m.name@ == decode_utf8(bin_name(s))
                    &&& message_type_byte(m.message_type) == bin_kind_byte(s)
                    &&& m.sequence_number == be_u32_value(s.skip(bin_seq_at(s))) as i32
                    &&& final(self).input() == s.skip(bin_seq_at(s) + 4)
                }
                &&& s.len() >= 4 && s[0] >= 128 && !(s[0] == 0x80 && s[1] == 0x01) ==> fails_with(
                    r,
                    ProtocolErrorKind::BadVersion,
                )
                &&& s.len() >= 4 && s[0] < 128 && old(self).is_strict() ==> fails_with(
                    r,
                    ProtocolErrorKind::BadVersion,
                )
                &&& s.len() >= 4 && s[0] == 0x80 && s[1] == 0x01 && !valid_kind_byte(s[3])
                    ==> fails_with(r, ProtocolErrorKind::InvalidData)
                &&& s.len() < 4 ==> fails_at_end(r)
                &&& s.len() >= 4 && s[0] == 0x80 && s[1] == 0x01 && valid_kind_byte(s[3]) ==> {
                    &&& bin_string_failure(r, s.skip(4), old(self).limits())
                    &&& bin_string_ok(s.skip(4), old(self).limits()) && s.len() < bin_seq_at(s) + 4
                        ==> fails_at_end(r)
                }
                &&& s.len() >= 4 && s[0] < 128 && !old(self).is_strict() ==> {
                    &&& bin_string_failure(r, s, old(self).limits())
                    &&& bin_string_ok(s, old(self).limits()) && s.len() < 5 + bin_len(s)
                        ==> fails_at_end(r)
                    &&& bin_string_ok(s, old(self).limits()) && s.len() >= 5 + bin_len(s)
                        && !valid_kind_byte(s[4 + bin_len(s)]) ==> fails_with(
                        r,
                        ProtocolErrorKind::InvalidData,
                    )
                    &&& bin_string_ok(s, old(self).limits()) && s.len() >= 5 + bin_len(s)
                        && valid_kind_byte(s[4 + bin_len(s)]) && s.len() < bin_seq_at(s) + 4
                        ==> fails_at_end(r)
                }
            }),
            final(self).same_state(old(self)),
    {
        let ghost s = self.input();
        let first = match self.transport.read_exact(4) {
            Ok(b) => b,
            Err(e) => return Err(e),
        };
        assert(first@ == s.take(4));
        if first[0] >= 0x80 {
            if first[0] != 0x80 || first[1] != 0x01 {
                return Err(protocol_error(ProtocolErrorKind::BadVersion, "received bad version"));
            }
            let message_type = match message_type_from_byte(first[3]) {
                Ok(k) => k,
                Err(e) => return Err(e),
            };
            let ghost s4 = self.input();
            assert(s4 == s.skip(4));
            let name = match self.read_string() {
                Ok(n) => n,
                Err(e) => return Err(e),
            };
            let ghost s8 = self.input();
            assert(s8 == s.skip(bin_seq_at(s))) by {
                assert(s.skip(4).skip(4 + bin_len(s.skip(4))) =~= s.skip(8 + bin_len(s.skip(4))));
            }
            let sequence_number = match self.read_i32() {
                Ok(v) => v,
                Err(e) => return Err(e),
            };
            assert(s.skip(bin_seq_at(s)).skip(4) =~= s.skip(bin_seq_at(s) + 4));
            Ok(TMessageIdentifier { name, message_type, sequence_number })
        } else {
            if self.strict {
                return Err(protocol_error(ProtocolErrorKind::BadVersion, "received bad version"));
            }
            let n = decode_len(first.as_slice());
            assert(n == bin_len(s));
            let name_bytes = match self.read_payload(n) {
                Ok(b) => b,
                Err(e) => return Err(e),
            };
            assert(name_bytes@ == bin_payload(s)) by {
                assert(s.skip(4).take(n as int) =~= s.subrange(4, 4 + n));
            }
            assert(self.input() == s.skip(4 + n)) by {
                assert(s.skip(4).skip(n as int) =~= s.skip(4 + n));
            }
            let name = match string_from_utf8(name_bytes) {
                Some(t) => t,
                None => {
                    return Err(
                        protocol_error(ProtocolErrorKind::InvalidData, "invalid UTF-8 in string"),
                    )
                },
            };
            let message_type = match self.read_message_kind() {
                Ok(k) => k,
                Err(e) => return Err(e),
            };
            assert(self.input() == s.skip(5 + n)) by {
                assert(s.skip(4 + n).skip(1) =~= s.skip(5 + n));
            }
            let sequence_number = match self.read_i32() {
                Ok(v) => v,
                Err(e) => return Err(e),
            };
            assert(s.skip(5 + n).skip(4) =~= s.skip(9 + n));
            Ok(TMessageIdentifier { name, message_type, sequence_number })
        }
    }

    /// Nothing to read.
    pub fn read_message_end(&mut self) -> (r: Result<()>)
        ensures
            r is Ok,
            final(self).input() == old(self).input(),
            final(self).same_state(old(self)),
    {
        Ok(())
    }

    /// Nothing to read; one more struct is open, unless that passes the depth cap.
    pub fn read_struct_begin(&mut self) -> (r: Result<Option<TStructIdentifier>>)
        ensures
            r is Ok <==> !(old(self).limits().depth_limit() matches Some(l) && old(self).depth()
                >= l) && old(self).depth() < usize::MAX,
            r matches Ok(v) ==> v is None && final(self).depth() == old(self).depth() + 1,
            r is Err ==> fails_with(r, ProtocolErrorKind::DepthLimit) && final(self).depth() == old(
                self).depth(),
            final(self).input() == old(self).input(),
            final(self).is_strict() == old(self).is_strict(),
            final(self).limits() == old(self).limits(),
    {
        match self.check_recursion_depth() {
            Ok(()) => {},
            Err(e) => return Err(e),
        }
        if self.recursion_depth == usize::MAX {
            return Err(protocol_error(ProtocolErrorKind::DepthLimit, "recursion depth overflow"));
        }
        self.recursion_depth = self.recursion_depth + 1;
        Ok(None)
    }

    /// Nothing to read; one struct fewer is open.
    pub fn read_struct_end(&mut self) -> (r: Result<()>)
        requires
            old(self).depth() > 0,
        ensures
            r is Ok,
            final(self).depth() == old(self).depth() - 1,
            final(self).input() == old(self).input(),
            final(self).is_strict() == old(self).is_strict(),
            final(self).limits() == old(self).limits(),
    {
        self.recursion_depth = self.recursion_depth - 1;
        Ok(())
    }

    /// A field header: a tag, then an id unless the tag is Stop (whose id reads as 0).
    pub fn read_field_begin(&mut self) -> (r: Result<TFieldIdentifier>)
        ensures
            ({
                let s = old(self).input();
                &&& r is Ok <==> s.len() >= 1 && binary_byte_type(s[0]) is Some && (
                binary_byte_type(s[0]) == Some(TType::Stop) || s.len() >= 3)
                &&& r matches Ok(f) ==> {
                    &&& f.name is None
                    &&& binary_byte_type(s[0]) == Some(f.field_type)
                    &&& f.field_type == TType::Stop ==> f.id == Some(0i16) && final(self).input()
                        == s.skip(1)
                    &&& f.field_type != TType::Stop ==> f.id == Some(
                        be_u16_value(s.skip(1)) as i16,
                    ) && final(self).input() == s.skip(3)
                }
                &&& s.len() >= 1 && binary_byte_type(s[0]) is None ==> fails_with(
                    r,
                    ProtocolErrorKind::InvalidData,
                )
                &&& s.len() == 0 || (s.len() < 3 && binary_byte_type(s[0]) is Some && s[0] != 0)
                    ==> fails_at_end(r)
            }),
            final(self).same_state(old(self)),
    {
        let ghost s = self.input();
        let tag = match self.transport.read_byte() {
            Ok(b) => b,
            Err(e) => return Err(e),
        };
        let field_type = match field_type_from_u8(tag) {
            Ok(t) => t,
            Err(e) => return Err(e),
        };
        match field_type {
            TType::Stop => Ok(TFieldIdentifier { name: None, field_type, id: Some(0) }),
            _ => {
                let id = match self.read_i16() {
                    Ok(v) => v,
                    Err(e) => return Err(e),
                };
                assert(s.skip(1).skip(2) =~= s.skip(3));
                Ok(TFieldIdentifier { name: None, field_type, id: Some(id) })
            },
        }
    }

    /// Nothing to read.
    pub fn read_field_end(&mut self) -> (r: Result<()>)
        ensures
            r is Ok,
            final(self).input() == old(self).input(),
            final(self).same_state(old(self)),
    {
        Ok(())
    }

    /// An element tag and a count, checked against the limits.
    fn read_sequence_begin(&mut self) -> (r: Result<(TType, i32)>)
        ensures
            ({
                let s = old(self).input();
                &&& r is Ok <==> bin_sequence_ok(s, old(self).limits())
                &&& r matches Ok((t, n)) ==> binary_byte_type(s[0]) == Some(t) && n == be_u32_value(
                    s.skip(1),
                ) as i32 && final(self).input() == s.skip(5)
                &&& s.len() >= 1 && binary_byte_type(s[0]) is None ==> fails_with(
                    r,
                    ProtocolErrorKind::InvalidData,
                )
                &&& s.len() >= 5 && binary_byte_type(s[0]) is Some && (be_u32_value(s.skip(1))
                    as i32) < 0 ==> fails_with(r, ProtocolErrorKind::NegativeSize)
                &&& s.len() >= 5 && binary_byte_type(s[0]) is Some && bin_len(s.skip(1)) >= 0
                    && !bin_sequence_ok(s, old(self).limits()) ==> fails_with_message(
                    r,
                    ProtocolErrorKind::SizeLimit,
                    container_error_message(
                        old(self).limits(),
                        bin_len(s.skip(1)),
                        binary_min_size(binary_byte_type(s[0])->0) as int,
                    ),
                )
                &&& s.len() == 0 || (s.len() < 5 && binary_byte_type(s[0]) is Some)
                    ==> fails_at_end(r)
            }),
            final(self).same_state(old(self)),
    {
        let ghost s = self.input();
        let tag = match self.transport.read_byte() {
            Ok(b) => b,
            Err(e) => return Err(e),
        };
        let element_type = match field_type_from_u8(tag) {
            Ok(t) => t,
            Err(e) => return Err(e),
        };
        let size = match self.read_i32() {
            Ok(v) => v,
            Err(e) => return Err(e),
        };
        assert(s.skip(1).skip(4) =~= s.skip(5));
        match check_container_size(&self.config, size, min_serialized_size(element_type)) {
            Ok(()) => Ok((element_type, size)),
            Err(e) => Err(e),
        }
    }

    /// A list header: the element tag and the count.
    pub fn read_list_begin(&mut self) -> (r: Result<TListIdentifier>)
        ensures
            ({
                let s = old(self).input();
                &&& r is Ok <==> bin_sequence_ok(s, old(self).limits())
                &&& r matches Ok(l) ==> binary_byte_type(s[0]) == Some(l.element_type) && l.size
                    == be_u32_value(s.skip(1)) as i32 && final(self).input() == s.skip(5)
                &&& s.len() >= 1 && binary_byte_type(s[0]) is None ==> fails_with(
                    r,
                    ProtocolErrorKind::InvalidData,
                )
                &&& s.len() >= 5 && binary_byte_type(s[0]) is Some && (be_u32_value(s.skip(1))
                    as i32) < 0 ==> fails_with(r, ProtocolErrorKind::NegativeSize)
                &&& s.len() >= 5 && binary_byte_type(s[0]) is Some && bin_len(s.skip(1)) >= 0
                    && !bin_sequence_ok(s, old(self).limits()) ==> fails_with_message(
                    r,
                    ProtocolErrorKind::SizeLimit,
                    container_error_message(
                        old(self).limits(),
                        bin_len(s.skip(1)),
                        binary_min_size(binary_byte_type(s[0])->0) as int,
                    ),
                )
                &&& s.len() == 0 || (s.len() < 5 && binary_byte_type(s[0]) is Some)
                    ==> fails_at_end(r)
            }),
            final(self).same_state(old(self)),
    {
        match self.read_sequence_begin() {
            Ok((element_type, size)) => Ok(TListIdentifier { element_type, size }),
            Err(e) => Err(e),
        }
    }

    /// Nothing to read.
    pub fn read_list_end(&mut self) -> (r: Result<()>)
        ensures
            r is Ok,
            final(self).input() == old(self).input(),
            final(self).same_state(old(self)),
    {
        Ok(())
    }

    /// A set header: the element tag and the count.
    pub fn read_set_begin(&mut self) -> (r: Result<TSetIdentifier>)
        ensures
            ({
                let s = old(self).input();
                &&& r is Ok <==> bin_sequence_ok(s, old(self).limits())
                &&& r matches Ok(l) ==> binary_byte_type(s[0]) == Some(l.element_type) && l.size
                    == be_u32_value(s.skip(1)) as i32 && final(self).input() == s.skip(5)
                &&& s.len() >= 1 && binary_byte_type(s[0]) is None ==> fails_with(
                    r,
                    ProtocolErrorKind::InvalidData,
                )
                &&& s.len() >= 5 && binary_byte_type(s[0]) is Some && (be_u32_value(s.skip(1))
                    as i32) < 0 ==> fails_with(r, ProtocolErrorKind::NegativeSize)
                &&& s.len() >= 5 && binary_byte_type(s[0]) is Some && bin_len(s.skip(1)) >= 0
                    && !bin_sequence_ok(s, old(self).limits()) ==> fails_with_message(
                    r,
                    ProtocolErrorKind::SizeLimit,
                    container_error_message(
                        old(self).limits(),
                        bin_len(s.skip(1)),
                        binary_min_size(binary_byte_type(s[0])->0) as int,
                    ),
                )
                &&& s.len() == 0 || (s.len() < 5 && binary_byte_type(s[0]) is Some)
                    ==> fails_at_end(r)
            }),
            final(self).same_state(old(self)),
    {
        match self.read_sequence_begin() {
            Ok((element_type, size)) => Ok(TSetIdentifier { element_type, size }),
            Err(e) => Err(e),
        }
    }

    /// Nothing to read.
    pub fn read_set_end(&mut self) -> (r: Result<()>)
        ensures
            r is Ok,
            final(self).input() == old(self).input(),
            final(self).same_state(old(self)),
    {
        Ok(())
    }

    /// A map header: key tag, value tag and count; both types are always present.
    pub fn read_map_begin(&mut self) -> (r: Result<TMapIdentifier>)
        ensures
            ({
                let s = old(self).input();
                &&& r is Ok <==> bin_map_ok(s, old(self).limits())
                &&& r matches Ok(m) ==> m.key_type == binary_byte_type(s[0]) && m.value_type
                    == binary_byte_type(s[1]) && m.size == be_u32_value(s.skip(2)) as i32 && final(
                    self).input() == s.skip(6)
                &&& s.len() >= 1 && binary_byte_type(s[0]) is None ==> fails_with(
                    r,
                    ProtocolErrorKind::InvalidData,
                )
                &&& s.len() >= 2 && binary_byte_type(s[0]) is Some && binary_byte_type(s[1]) is None
                    ==> fails_with(r, ProtocolErrorKind::InvalidData)
                &&& s.len() >= 6 && binary_byte_type(s[0]) is Some && binary_byte_type(s[1]) is Some
                    && (be_u32_value(s.skip(2)) as i32) < 0 ==> fails_with(
                    r,
                    ProtocolErrorKind::NegativeSize,
                )
                &&& s.len() >= 6 && binary_byte_type(s[0]) is Some && binary_byte_type(s[1]) is Some
                    && bin_len(s.skip(2)) >= 0 && !bin_map_ok(s, old(self).limits())
                    ==> fails_with_message(
                    r,
                    ProtocolErrorKind::SizeLimit,
                    container_error_message(
                        old(self).limits(),
                        bin_len(s.skip(2)),
                        (binary_min_size(binary_byte_type(s[0])->0) + binary_min_size(
                            binary_byte_type(s[1])->0,
                        )) as int,
                    ),
                )
                &&& s.len() == 0 || (s.len() < 2 && binary_byte_type(s[0]) is Some) || (s.len() < 6
                    && binary_byte_type(s[0]) is Some && binary_byte_type(s[1]) is Some)
                    ==> fails_at_end(r)
            }),
            final(self).same_state(old(self)),
    {
        let ghost s = self.input();
        let key_tag = match self.transport.read_byte() {
            Ok(b) => b,
            Err(e) => return Err(e),
        };
        let key_type = match field_type_from_u8(key_tag) {
            Ok(t) => t,
            Err(e) => return Err(e),
        };
        let value_tag = match self.transport.read_byte() {
            Ok(b) => b,
            Err(e) => return Err(e),
        };
        assert(s.skip(1)[0] == s[1]);
        let value_type = match field_type_from_u8(value_tag) {
            Ok(t) => t,
            Err(e) => return Err(e),
        };
        assert(s.skip(1).skip(1) =~= s.skip(2));
        let size = match self.read_i32() {
            Ok(v) => v,
            Err(e) => return Err(e),
        };
        assert(s.skip(2).skip(4) =~= s.skip(6));
        let element_size = min_serialized_size(key_type) + min_serialized_size(value_type);
        match check_container_size(&self.config, size, element_size) {
            Ok(()) => Ok(TMapIdentifier { key_type: Some(key_type), value_type: Some(value_type), size }),
            Err(e) => Err(e),
        }
    }

    /// Nothing to read.
    pub fn read_map_end(&mut self) -> (r: Result<()>)
        ensures
            r is Ok,
            final(self).input() == old(self).input(),
            final(self).same_state(old(self)),
    {
        Ok(())
    }

    /// The fewest bytes that a value of type `t` takes.
    pub fn min_serialized_size(&self, t: TType) -> (r: usize)
        ensures
            r == binary_min_size(t),
    {
        min_serialized_size(t)
    }
}

/// The message kind of a wire byte, or `InvalidData`.
pub(crate) fn message_type_from_byte(b: u8) -> (r: Result<TMessageType>)
    ensures
        r is Ok <==> valid_kind_byte(b),
        r matches Ok(k) ==> message_type_byte(k) == b,
        !valid_kind_byte(b) ==> fails_with(r, ProtocolErrorKind::InvalidData),
{
    match TMessageType::from_u8(b) {
        Some(k) => Ok(k),
        None => {
            let m = message_with_number("cannot convert ", b as u128, " to TMessageType");
            Err(Error::Protocol(ProtocolError::new(ProtocolErrorKind::InvalidData, m)))
        },
    }
}

/// The length prefix held in four bytes.
fn decode_len(b: &[u8]) -> (r: i32)
    requires
        b@.len() == 4,
    ensures
        r == be_u32_value(b@) as i32,
{
    let v = crate::wire::decode_be_u32(b);
    v as i32
}

fn min_serialized_size(t: TType) -> (r: usize)
    ensures
        r == binary_min_size(t),
{
    match t {
        TType::Stop => 1,
        TType::Void => 1,
        TType::Bool => 1,
        TType::I08 => 1,
        TType::Double => 8,
        TType::I16 => 2,
        TType::I32 => 4,
        TType::I64 => 8,
        TType::String => 4,
        TType::Struct => 1,
        TType::MapType => 4,
        TType::SetType => 4,
        TType::List => 4,
        TType::Uuid => 16,
        TType::Utf7 => 1,
    }
}

fn field_type_to_u8(field_type: TType) -> (r: u8)
    ensures
        r == binary_type_byte(field_type),
{
    match field_type {
        TType::Stop => 0x00,
        TType::Void => 0x01,
        TType::Bool => 0x02,
        TType::I08 => 0x03,
        TType::Double => 0x04,
        TType::I16 => 0x06,
        TType::I32 => 0x08,
        TType::I64 => 0x0A,
        TType::String => 0x0B,
        TType::Utf7 => 0x0B,
        TType::Struct => 0x0C,
        TType::MapType => 0x0D,
        TType::SetType => 0x0E,
        TType::List => 0x0F,
        TType::Uuid => 0x10,
    }
}

fn field_type_from_u8(b: u8) -> (r: Result<TType>)
    ensures
        r is Ok <==> binary_byte_type(b) is Some,
        r matches Ok(t) ==> binary_byte_type(b) == Some(t),
        binary_byte_type(b) is None ==> fails_with(r, ProtocolErrorKind::InvalidData),
{
    match b {
        0x00 => Ok(TType::Stop),
        0x01 => Ok(TType::Void),
        0x02 => Ok(TType::Bool),
        0x03 => Ok(TType::I08),
        0x04 => Ok(TType::Double),
        0x06 => Ok(TType::I16),
        0x08 => Ok(TType::I32),
        0x0A => Ok(TType::I64),
        0x0B => Ok(TType::String),
        0x0C => Ok(TType::Struct),
        0x0D => Ok(TType::MapType),
        0x0E => Ok(TType::SetType),
        0x0F => Ok(TType::List),
        0x10 => Ok(TType::Uuid),
        _ => {
            let m = message_with_number("cannot convert ", b as u128, " to TType");
            Err(Error::Protocol(ProtocolError::new(ProtocolErrorKind::InvalidData, m)))
        },
    }
}


/// Makes strict binary readers.
#[derive(Default)]
pub struct TBinaryInputProtocolFactory;

impl TBinaryInputProtocolFactory {
    pub fn new() -> (r: TBinaryInputProtocolFactory) {
        TBinaryInputProtocolFactory {  }
    }

    /// A strict reader with the default limits over `transport`.
    pub fn create(&self, transport: TBufferChannel) -> (r: TBinaryInputProtocol)
        ensures
            r.input() == transport.unread(),
            r.is_strict(),
            r.limits().is_default(),
            r.depth() == 0,
    {
        TBinaryInputProtocol::new(transport, true)
    }
}

/// Writes binary-encoded values to an in-memory channel.
pub struct TBinaryOutputProtocol {
    strict: bool,
    transport: TBufferChannel,
}

impl TBinaryOutputProtocol {
    /// Whether message headers carry the version.
    pub closed spec fn is_strict(&self) -> bool {
        self.strict
    }

    /// The bytes written so far.
    pub closed spec fn output(&self) -> Seq<u8> {
        self.transport.written()
    }

    pub fn new(transport: TBufferChannel, strict: bool) -> (r: TBinaryOutputProtocol)
        ensures
            r.output() == transport.written(),
            r.is_strict() == strict,
    {
        TBinaryOutputProtocol { strict, transport }
    }

    /// The channel underneath, to look at what was written.
    pub fn transport(&self) -> (r: &TBufferChannel)
        ensures
            r.written() == self.output(),
    {
        &self.transport
    }

    /// Gives back the channel underneath.
    pub fn into_transport(self) -> (r: TBufferChannel)
        ensures
            r.written() == self.output(),
    {
        self.transport
    }

    /// A message header, with the version first when the writer is strict.
    pub fn write_message_begin(&mut self, identifier: &TMessageIdentifier) -> (r: Result<()>)
        requires
            encode_utf8(identifier.name@).len() <= i32::MAX,
        ensures
            r is Ok,
            final(self).output() == old(self).output() + bin_message(
                old(self).is_strict(),
                0,
                encode_utf8(identifier.name@),
                identifier.message_type,
                identifier.sequence_number,
            ),
            final(self).is_strict() == old(self).is_strict(),
    {
        let kind = identifier.message_type.to_u8();
        let ghost name = encode_utf8(identifier.name@);
        if self.strict {
            let header: u32 = 0x8001_0000u32 | (kind as u32);
            assert(be_u32(header) =~= seq![0x80u8, 0x01u8, 0u8, kind]) by {
                assert((header >> 24u32) as u8 == 0x80u8 && (header >> 16u32) as u8 == 0x01u8 && (
                header >> 8u32) as u8 == 0u8 && header as u8 == kind) by (bit_vector)
                    requires
                        header == 0x8001_0000u32 | (kind as u32),
                        kind <= 4,
                ;
            }
            write_be_u32(&mut self.transport, header);
            self.write_string(identifier.name.as_str());
            self.write_i32(identifier.sequence_number);
            assert(self.output() =~= old(self).output() + bin_message(
                true,
                0,
                name,
                identifier.message_type,
                identifier.sequence_number,
            ));
        } else {
            self.write_string(identifier.name.as_str());
            self.write_byte(kind);
            self.write_i32(identifier.sequence_number);
            assert(self.output() =~= old(self).output() + bin_message(
                false,
                0,
                name,
                identifier.message_type,
                identifier.sequence_number,
            ));
        }
        Ok(())
    }

    /// Nothing to write.
    pub fn write_message_end(&mut self) -> (r: Result<()>)
        ensures
            r is Ok,
            final(self).output() == old(self).output(),
            final(self).is_strict() == old(self).is_strict(),
    {
        Ok(())
    }

    /// Nothing to write.
    pub fn write_struct_begin(&mut self, identifier: &TStructIdentifier) -> (r: Result<()>)
        ensures
            r is Ok,
            final(self).output() == old(self).output(),
            final(self).is_strict() == old(self).is_strict(),
    {
        Ok(())
    }

    /// Nothing to write.
    pub fn write_struct_end(&mut self) -> (r: Result<()>)
        ensures
            r is Ok,
            final(self).output() == old(self).output(),
            final(self).is_strict() == old(self).is_strict(),
    {
        Ok(())
    }

    /// A field header; a field other than Stop needs an id.
    pub fn write_field_begin(&mut self, identifier: &TFieldIdentifier) -> (r: Result<()>)
        ensures
            r is Ok <==> identifier.field_type == TType::Stop || identifier.id is Some,
            r is Ok ==> final(self).output() == old(self).output() + bin_field(
                identifier.field_type,
                if identifier.id is Some {
                    identifier.id->0
                } else {
                    0
                },
            ),
            r is Err ==> fails_with(r, ProtocolErrorKind::Unknown) && final(self).output() == old(
                self).output(),
            final(self).is_strict() == old(self).is_strict(),
    {
        match identifier.field_type {
            TType::Stop => {
                self.write_byte(0x00);
                Ok(())
            },
            _ => match identifier.id {
                Some(id) => {
                    self.write_byte(field_type_to_u8(identifier.field_type));
                    self.write_i16(id);
                    assert(self.output() =~= old(self).output() + bin_field(
                        identifier.field_type,
                        id,
                    ));
                    Ok(())
                },
                None => Err(
                    protocol_error(
                        ProtocolErrorKind::Unknown,
                        "cannot write a field identifier without an id",
                    ),
                ),
            },
        }
    }

    /// Nothing to write.
    pub fn write_field_end(&mut self) -> (r: Result<()>)
        ensures
            r is Ok,
            final(self).output() == old(self).output(),
            final(self).is_strict() == old(self).is_strict(),
    {
        Ok(())
    }

    /// The Stop tag.
    pub fn write_field_stop(&mut self) -> (r: Result<()>)
        ensures
            r is Ok,
            final(self).output() == old(self).output() + seq![0x00u8],
            final(self).is_strict() == old(self).is_strict(),
    {
        self.write_byte(field_type_to_u8(TType::Stop))
    }

    /// The length as a big-endian i32, then the bytes.
    pub fn write_bytes(&mut self, b: &[u8]) -> (r: Result<()>)
        requires
            b@.len() <= i32::MAX,
        ensures
            r is Ok,
            final(self).output() == old(self).output() + bin_bytes(b@),
            final(self).is_strict() == old(self).is_strict(),
    {
        self.write_i32(b.len() as i32);
        self.transport.write_all(b);
        assert(self.output() =~= old(self).output() + bin_bytes(b@));
        Ok(())
    }

    /// One byte: 1 for true, 0 for false.
    pub fn write_bool(&mut self, b: bool) -> (r: Result<()>)
        ensures
            r is Ok,
            final(self).output() == old(self).output() + seq![
                if b {
                    1u8
                } else {
                    0u8
                },
            ],
            final(self).is_strict() == old(self).is_strict(),
    {
        if b {
            self.write_byte(1)
        } else {
            self.write_byte(0)
        }
    }

    pub fn write_i8(&mut self, i: i8) -> (r: Result<()>)
        ensures
            r is Ok,
            final(self).output() == old(self).output() + seq![i as u8],
            final(self).is_strict() == old(self).is_strict(),
    {
        self.write_byte(i as u8)
    }

    pub fn write_i16(&mut self, i: i16) -> (r: Result<()>)
        ensures
            r is Ok,
            final(self).output() == old(self).output() + bin_i16(i),
            final(self).is_strict() == old(self).is_strict(),
    {
        write_be_u16(&mut self.transport, i as u16);
        Ok(())
    }

    pub fn write_i32(&mut self, i: i32) -> (r: Result<()>)
        ensures
            r is Ok,
            final(self).output() == old(self).output() + bin_i32(i),
            final(self).is_strict() == old(self).is_strict(),
    {
        write_be_u32(&mut self.transport, i as u32);
        Ok(())
    }

    pub fn write_i64(&mut self, i: i64) -> (r: Result<()>)
        ensures
            r is Ok,
            final(self).output() == old(self).output() + bin_i64(i),
            final(self).is_strict() == old(self).is_strict(),
    {
        write_be_u64(&mut self.transport, i as u64);
        Ok(())
    }

    /// A double given as its IEEE-754 bit pattern, most significant byte first.
    pub fn write_double(&mut self, bits: u64) -> (r: Result<()>)
        ensures
            r is Ok,
            final(self).output() == old(self).output() + be_u64(bits),
            final(self).is_strict() == old(self).is_strict(),
    {
        write_be_u64(&mut self.transport, bits);
        Ok(())
    }

    /// The UTF-8 bytes of `s` as a byte string.
    pub fn write_string(&mut self, s: &str) -> (r: Result<()>)
        requires
            encode_utf8(s@).len() <= i32::MAX,
        ensures
            r is Ok,
            final(self).output() == old(self).output() + bin_bytes(encode_utf8(s@)),
            final(self).is_strict() == old(self).is_strict(),
    {
        self.write_bytes(s.as_bytes())
    }

    /// The sixteen bytes of the UUID, unprefixed.
    pub fn write_uuid(&mut self, uuid: &TUuid) -> (r: Result<()>)
        ensures
            r is Ok,
            final(self).output() == old(self).output() + uuid.bytes@,
            final(self).is_strict() == old(self).is_strict(),
    {
        self.transport.write_all(&uuid.bytes);
        Ok(())
    }

    /// The element tag, then the count.
    pub fn write_list_begin(&mut self, identifier: &TListIdentifier) -> (r: Result<()>)
        ensures
            r is Ok,
            final(self).output() == old(self).output() + seq![
                binary_type_byte(identifier.element_type),
            ] + bin_i32(identifier.size),
            final(self).is_strict() == old(self).is_strict(),
    {
        self.write_byte(field_type_to_u8(identifier.element_type));
        self.write_i32(identifier.size);
        assert(self.output() =~= old(self).output() + seq![
            binary_type_byte(identifier.element_type),
        ] + bin_i32(identifier.size));
        Ok(())
    }

    /// Nothing to write.
    pub fn write_list_end(&mut self) -> (r: Result<()>)
        ensures
            r is Ok,
            final(self).output() == old(self).output(),
            final(self).is_strict() == old(self).is_strict(),
    {
        Ok(())
    }

    /// The element tag, then the count.
    pub fn write_set_begin(&mut self, identifier: &TSetIdentifier) -> (r: Result<()>)
        ensures
            r is Ok,
            final(self).output() == old(self).output() + seq![
                binary_type_byte(identifier.element_type),
            ] + bin_i32(identifier.size),
            final(self).is_strict() == old(self).is_strict(),
    {
        self.write_byte(field_type_to_u8(identifier.element_type));
        self.write_i32(identifier.size);
        assert(self.output() =~= old(self).output() + seq![
            binary_type_byte(identifier.element_type),
        ] + bin_i32(identifier.size));
        Ok(())
    }

    /// Nothing to write.
    pub fn write_set_end(&mut self) -> (r: Result<()>)
        ensures
            r is Ok,
            final(self).output() == old(self).output(),
            final(self).is_strict() == old(self).is_strict(),
    {
        Ok(())
    }

    /// The key tag, the value tag, then the count.
    pub fn write_map_begin(&mut self, identifier: &TMapIdentifier) -> (r: Result<()>)
        requires
            identifier.key_type is Some,
            identifier.value_type is Some,
        ensures
            r is Ok,
            final(self).output() == old(self).output() + seq![
                binary_type_byte(identifier.key_type->0),
                binary_type_byte(identifier.value_type->0),
            ] + bin_i32(identifier.size),
            final(self).is_strict() == old(self).is_strict(),
    {
        let key_type = match identifier.key_type {
            Some(t) => t,
            None => vstd::pervasive::unreached(),
        };
        let value_type = match identifier.value_type {
            Some(t) => t,
            None => vstd::pervasive::unreached(),
        };
        self.write_byte(field_type_to_u8(key_type));
        self.write_byte(field_type_to_u8(value_type));
        self.write_i32(identifier.size);
        assert(self.output() =~= old(self).output() + seq![
            binary_type_byte(key_type),
            binary_type_byte(value_type),
        ] + bin_i32(identifier.size));
        Ok(())
    }

    /// Nothing to write.
    pub fn write_map_end(&mut self) -> (r: Result<()>)
        ensures
            r is Ok,
            final(self).output() == old(self).output(),
            final(self).is_strict() == old(self).is_strict(),
    {
        Ok(())
    }

    pub fn flush(&mut self) -> (r: Result<()>)
        ensures
            r is Ok,
            final(self).output() == old(self).output(),
            final(self).is_strict() == old(self).is_strict(),
    {
        self.transport.flush()
    }

    pub fn write_byte(&mut self, b: u8) -> (r: Result<()>)
        ensures
            r is Ok,
            final(self).output() == old(self).output() + seq![b],
            final(self).is_strict() == old(self).is_strict(),
    {
        self.transport.write_byte(b);
        assert(old(self).output().push(b) =~= old(self).output() + seq![b]);
        Ok(())
    }
}

/// Makes strict binary writers.
#[derive(Default)]
pub struct TBinaryOutputProtocolFactory;

impl TBinaryOutputProtocolFactory {
    pub fn new() -> (r: TBinaryOutputProtocolFactory) {
        TBinaryOutputProtocolFactory {  }
    }

    /// A strict writer over `transport`.
    pub fn create(&self, transport: TBufferChannel) -> (r: TBinaryOutputProtocol)
        ensures
            r.output() == transport.written(),
            r.is_strict(),
    {
        TBinaryOutputProtocol::new(transport, true)
    }
}

} // verus!
