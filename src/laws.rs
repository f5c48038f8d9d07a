//! Laws of the two encodings, stated over the spec functions that the codec
//! contracts use: what an encoder writes, the matching decoder reads back.

use vstd::prelude::*;
use vstd::utf8::{decode_utf8, encode_utf8, encode_utf8_decode_utf8, encode_utf8_valid_utf8};
use crate::binary::{
    bin_bytes, bin_bytes_ok, bin_field, bin_i16, bin_i32, bin_i64, bin_kind_byte, bin_len,
    bin_map_ok, bin_message, bin_message_ok, bin_name, bin_payload, bin_seq_at, bin_sequence_ok,
    binary_byte_type, binary_min_size, binary_type_byte, string_fits,
};
use crate::compact::{
    cmp_bool, cmp_bytes, cmp_bytes_ok, cmp_bytes_size, cmp_field_header, cmp_field_id,
    cmp_field_ok, cmp_field_size, cmp_int, cmp_kind_version, cmp_map_count, cmp_map_header,
    cmp_map_ok, cmp_message, cmp_message_ok, cmp_name_at, cmp_payload, cmp_sequence_count,
    cmp_sequence_header, cmp_sequence_ok, cmp_sequence_size, cmp_u32, compact_encodable,
    compact_min_size, compact_nibble, compact_nibble_type, COMPACT_PROTOCOL_ID,
};
use crate::config::{container_fits, TConfiguration};
use crate::types::{message_type_byte, TMessageType, TType};
use crate::wire::{
    be_u16_value, be_u32_value, be_u64_value, leb128, leb128_value, lemma_be_values, lemma_leb128,
    lemma_leb128_len, pow2_64, lemma_pow128_values, unzigzag, varint_len,
    varint_value, zigzag,
};

verus! {

/// Zig-zag decoding undoes zig-zag encoding.
pub proof fn lemma_unzigzag_zigzag(x: int)
    ensures
        unzigzag(zigzag(x)) == x,
{
}

/// A signed 64-bit integer written by the compact encoder reads back
/// unchanged, whatever follows it; the zig-zag image of a 16- or 32-bit value
/// fits the shorter varints that those reads accept.
pub proof fn lemma_compact_int_round_trip(x: i64, rest: Seq<u8>)
    ensures
        ({
            let s = cmp_int(x as int) + rest;
            &&& 1 <= varint_len(s) <= 10
            &&& varint_len(s) <= s.len()
            &&& unzigzag(varint_value(s)) as i64 == x
            &&& s.skip(varint_len(s) as int) == rest
            &&& i16::MIN <= x <= i16::MAX ==> varint_len(s) <= 3 && (unzigzag(varint_value(s)) as i64) as i16 == x
            &&& i32::MIN <= x <= i32::MAX ==> varint_len(s) <= 5 && (unzigzag(varint_value(s)) as i64) as i32 == x
        }),
{
    let z = zigzag(x as int);
    let s = cmp_int(x as int) + rest;
    lemma_leb128(z, rest);
    lemma_pow128_values();
    lemma_leb128_len(z, 10);
    if i16::MIN <= x <= i16::MAX {
        lemma_leb128_len(z, 3);
    }
    if i32::MIN <= x <= i32::MAX {
        lemma_leb128_len(z, 5);
    }
    assert(varint_value(s) == z);
    assert(s.skip(leb128(z).len() as int) =~= rest);
}

/// A raw varint of a 32-bit number reads back as that number.
pub proof fn lemma_raw_varint_round_trip(u: nat, rest: Seq<u8>)
    requires
        u <= u32::MAX,
    ensures
        ({
            let s = leb128(u) + rest;
            &&& 1 <= varint_len(s) <= 5
            &&& varint_len(s) == leb128(u).len()
            &&& varint_value(s) == u
            &&& cmp_u32(s) == u
            &&& s.skip(varint_len(s) as int) == rest
        }),
{
    let s = leb128(u) + rest;
    lemma_leb128(u, rest);
    lemma_pow128_values();
    lemma_leb128_len(u, 5);
    assert(s.take(varint_len(s) as int) == leb128(u));
    assert(leb128_value(leb128(u)) == u);
    assert(u % pow2_64() == u);
    assert(s.skip(leb128(u).len() as int) =~= rest);
}

/// A compact byte string reads back as the bytes written, when the
/// configuration admits its length.
pub proof fn lemma_compact_bytes_round_trip(b: Seq<u8>, rest: Seq<u8>, c: TConfiguration)
    requires
        b.len() <= u32::MAX,
        string_fits(c, b.len() as int),
    ensures
        ({
            let s = cmp_bytes(b) + rest;
            &&& cmp_bytes_ok(s, c)
            &&& cmp_payload(s) == b
            &&& s.skip(cmp_bytes_size(s)) == rest
        }),
{
    let s = cmp_bytes(b) + rest;
    assert(s =~= leb128(b.len()) + (b + rest));
    lemma_raw_varint_round_trip(b.len(), b + rest);
    let k = leb128(b.len()).len() as int;
    assert(cmp_payload(s) =~= b);
    assert(s.skip(k + b.len()) =~= rest);
}

/// A compact message header reads back with the name, the kind and the
/// sequence number that were written; every 32-bit sequence number survives,
/// negative ones as their two's-complement pattern.
#[verifier::rlimit(60)]
pub proof fn lemma_compact_message_round_trip(
    name: Seq<char>,
    kind: TMessageType,
    seq: i32,
    rest: Seq<u8>,
    c: TConfiguration,
)
    requires
        encode_utf8(name).len() <= u32::MAX,
        string_fits(c, encode_utf8(name).len() as int),
    ensures
        ({
            let s = cmp_message(encode_utf8(name), kind, seq) + rest;
            &&& cmp_message_ok(s, c)
            &&& decode_utf8(cmp_payload(s.skip(cmp_name_at(s)))) == name
            &&& s[1] / 32 == message_type_byte(kind)
            &&& cmp_u32(s.skip(2)) as i32 == seq
            &&& s.skip(cmp_name_at(s) + cmp_bytes_size(s.skip(cmp_name_at(s)))) == rest
        }),
{
    let nb = encode_utf8(name);
    let s = cmp_message(nb, kind, seq) + rest;
    let u = (seq as u32) as nat;
    let kb = message_type_byte(kind);
    assert(cmp_kind_version(kind) == kb * 32 + 1);
    assert((kb * 32 + 1) % 32 == 1 && (kb * 32 + 1) / 32 == kb);
    let tail = cmp_bytes(nb) + rest;
    assert(s =~= seq![COMPACT_PROTOCOL_ID, cmp_kind_version(kind)] + (leb128(u) + tail));
    assert(s.skip(2) =~= leb128(u) + tail);
    lemma_raw_varint_round_trip(u, tail);
    assert((seq as u32) as i32 == seq) by (bit_vector);
    assert(s.skip(cmp_name_at(s)) =~= tail);
    lemma_compact_bytes_round_trip(nb, rest, c);
    encode_utf8_valid_utf8(name);
    encode_utf8_decode_utf8(name);
}

/// Every type with a compact form reads back from its own nibble.
pub proof fn lemma_compact_nibble_type(t: TType)
    requires
        compact_encodable(t),
    ensures
        compact_nibble_type(compact_nibble(t)) == Some(t),
        compact_nibble(t) < 16,
        t != TType::Stop ==> compact_nibble(t) != 0,
{
}

/// A compact field header reads back with the type and the id that were
/// written, in whatever order the ids come, provided reader and writer agree
/// on the last id of the struct; a bool field also hands over its value.
pub proof fn lemma_compact_field_round_trip(t: TType, value: bool, id: i16, last: i16, rest: Seq<u8>)
    requires
        compact_encodable(t),
        t != TType::Stop,
    ensures
        ({
            let nibble = if t == TType::Bool {
                cmp_bool(value)
            } else {
                compact_nibble(t)
            };
            let s = cmp_field_header(nibble, id, last) + rest;
            &&& cmp_field_ok(s, last)
            &&& compact_nibble_type(s[0] % 16) == Some(t)
            &&& cmp_field_id(s, last) == id
            &&& s.skip(cmp_field_size(s)) == rest
            &&& t == TType::Bool ==> (s[0] % 16 == 1) == value && (s[0] % 16 == 1 || s[0] % 16 == 2)
            &&& t != TType::Bool ==> s[0] % 16 != 1 && s[0] % 16 != 2
        }),
{
    let nibble = if t == TType::Bool {
        cmp_bool(value)
    } else {
        compact_nibble(t)
    };
    lemma_compact_nibble_type(t);
    let s = cmp_field_header(nibble, id, last) + rest;
    if 1 <= id - last <= 15 {
        let d = id - last;
        assert(s[0] == (d * 16 + nibble) as u8);
        assert(s[0] / 16 == d && s[0] % 16 == nibble);
        assert(s.skip(1) =~= rest);
    } else {
        let z = cmp_int(id as int);
        assert(s[0] == nibble);
        assert(s.skip(1) =~= z + rest);
        lemma_compact_int_round_trip(id as i64, rest);
        assert(s.skip(1 + leb128(zigzag(id as int)).len() as int) =~= rest);
    }
}

/// The nibble that a compact field header carries: the type's own, or for a
/// bool field its value.
pub open spec fn field_nibble(t: TType, value: bool) -> u8 {
    if t == TType::Bool {
        cmp_bool(value)
    } else {
        compact_nibble(t)
    }
}

/// The bytes of the fields `fs` of one struct written one after another,
/// starting after the field id `last`. Each field is its type, its value when
/// it is a bool, its id, and the bytes of its value that follow its header.
pub open spec fn cmp_fields(fs: Seq<(TType, bool, i16, Seq<u8>)>, last: i16) -> Seq<u8>
    decreases fs.len(),
{
    if fs.len() == 0 {
        Seq::empty()
    } else {
        cmp_field_header(field_nibble(fs[0].0, fs[0].1), fs[0].2, last) + fs[0].3 + cmp_fields(
            fs.drop_first(),
            fs[0].2,
        )
    }
}

/// Whether a reader whose last field id is `last`, reading a field header and
/// then the value bytes after it, over and over, meets the fields `fs` in `s`
/// and then `rest`.
pub open spec fn cmp_reads_fields(
    s: Seq<u8>,
    last: i16,
    fs: Seq<(TType, bool, i16, Seq<u8>)>,
    rest: Seq<u8>,
) -> bool
    decreases fs.len(),
{
    if fs.len() == 0 {
        s == rest
    } else {
        let after = s.skip(cmp_field_size(s));
        &&& cmp_field_ok(s, last)
        &&& compact_nibble_type(s[0] % 16) == Some(fs[0].0)
        &&& cmp_field_id(s, last) == fs[0].2
        &&& fs[0].0 == TType::Bool ==> (s[0] % 16 == 1) == fs[0].1
        &&& after.take(fs[0].3.len() as int) == fs[0].3
        &&& cmp_reads_fields(after.skip(fs[0].3.len() as int), fs[0].2, fs.drop_first(), rest)
    }
}

/// The fields of a struct, with ids in any order (gaps, descending, negative),
/// read back one by one with their types and ids when the reader starts from
/// the same last id as the writer.
pub proof fn lemma_compact_fields_round_trip(
    fs: Seq<(TType, bool, i16, Seq<u8>)>,
    last: i16,
    rest: Seq<u8>,
)
    requires
        forall|i: int|
            0 <= i < fs.len() ==> compact_encodable(#[trigger] fs[i].0) && fs[i].0 != TType::Stop,
    ensures
        cmp_reads_fields(cmp_fields(fs, last) + rest, last, fs, rest),
    decreases fs.len(),
{
    if fs.len() > 0 {
        let (t, v, id, val) = fs[0];
        let tail = fs.drop_first();
        assert forall|i: int| 0 <= i < tail.len() implies compact_encodable(#[trigger] tail[i].0)
            && tail[i].0 != TType::Stop by {
            assert(tail[i] == fs[i + 1]);
        }
        lemma_compact_fields_round_trip(tail, id, rest);
        let later = cmp_fields(tail, id) + rest;
        let h = cmp_field_header(field_nibble(t, v), id, last);
        let s = cmp_fields(fs, last) + rest;
        assert(s =~= h + (val + later));
        lemma_compact_field_round_trip(t, v, id, last, val + later);
        let after = s.skip(cmp_field_size(s));
        assert(after == val + later);
        assert(after.take(val.len() as int) =~= val);
        assert(after.skip(val.len() as int) =~= later);
    } else {
        assert(cmp_fields(fs, last) + rest =~= rest);
    }
}

/// A nested struct: its fields, written from id zero, then the Stop byte. A
/// reader that enters the struct (its last id restarts at zero) reads the
/// fields back and then Stop, which consumes one byte and carries no id. The
/// same bytes are the value of the enclosing struct field in `cmp_fields`, so
/// `lemma_compact_fields_round_trip` carries the outer fields on from the
/// struct field's id, which `read_struct_end` restores from the id stack (see
/// `lemma_nested_struct_restores_last_id`).
pub proof fn lemma_compact_nested_struct_round_trip(
    fs: Seq<(TType, bool, i16, Seq<u8>)>,
    rest: Seq<u8>,
)
    requires
        forall|i: int|
            0 <= i < fs.len() ==> compact_encodable(#[trigger] fs[i].0) && fs[i].0 != TType::Stop,
    ensures
        ({
            let stop = seq![0x00u8] + rest;
            &&& cmp_reads_fields(cmp_fields(fs, 0) + stop, 0, fs, stop)
            &&& forall|last: i16| #[trigger] cmp_field_ok(stop, last)
            &&& compact_nibble_type(stop[0] % 16) == Some(TType::Stop)
            &&& stop.skip(cmp_field_size(stop)) == rest
        }),
{
    let stop = seq![0x00u8] + rest;
    lemma_compact_fields_round_trip(fs, 0, stop);
    assert(stop[0] == 0u8);
    assert(stop.skip(1) =~= rest);
}

/// A compact list or set header reads back with the element type and the
/// count that were written, when the configuration admits the count.
pub proof fn lemma_compact_sequence_round_trip(t: TType, size: i32, rest: Seq<u8>, c: TConfiguration)
    requires
        compact_encodable(t),
        size >= 0,
        container_fits(c, size as int, compact_min_size(t) as int),
    ensures
        ({
            let s = cmp_sequence_header(t, size) + rest;
            &&& cmp_sequence_ok(s, c)
            &&& compact_nibble_type(s[0] % 16) == Some(t)
            &&& cmp_sequence_count(s) == size
            &&& s.skip(cmp_sequence_size(s)) == rest
        }),
{
    lemma_compact_nibble_type(t);
    let n = compact_nibble(t);
    let s = cmp_sequence_header(t, size) + rest;
    if size <= 14 {
        assert(s[0] == (size * 16 + n) as u8);
        assert(s[0] / 16 == size && s[0] % 16 == n);
        assert(s.skip(1) =~= rest);
    } else {
        let u = (size as u32) as nat;
        assert(s[0] == (0xF0 + n) as u8);
        assert(s[0] / 16 == 15 && s[0] % 16 == n);
        assert(s.skip(1) =~= leb128(u) + rest);
        lemma_raw_varint_round_trip(u, rest);
        assert((size as u32) as i32 == size) by (bit_vector);
        assert(s.skip(1 + leb128(u).len() as int) =~= rest);
    }
}

/// A compact map header reads back with the count that was written, and with
/// both types unless the map is empty.
pub proof fn lemma_compact_map_round_trip(
    k: TType,
    v: TType,
    size: i32,
    rest: Seq<u8>,
    c: TConfiguration,
)
    requires
        compact_encodable(k),
        compact_encodable(v),
        size > 0,
        container_fits(c, size as int, (compact_min_size(k) + compact_min_size(v)) as int),
    ensures
        ({
            let s = cmp_map_header(k, v, size) + rest;
            let n = varint_len(s) as int;
            &&& cmp_map_ok(s, c)
            &&& cmp_map_count(s) == size
            &&& compact_nibble_type(s[n] / 16) == Some(k)
            &&& compact_nibble_type(s[n] % 16) == Some(v)
            &&& s.skip(n + 1) == rest
        }),
{
    lemma_compact_nibble_type(k);
    lemma_compact_nibble_type(v);
    let u = (size as u32) as nat;
    let b = (compact_nibble(k) * 16 + compact_nibble(v)) as u8;
    let s = cmp_map_header(k, v, size) + rest;
    assert(s =~= leb128(u) + (seq![b] + rest));
    lemma_raw_varint_round_trip(u, seq![b] + rest);
    assert((size as u32) as i32 == size) by (bit_vector);
    let n = leb128(u).len() as int;
    assert(s[n] == b);
    assert(b / 16 == compact_nibble(k) && b % 16 == compact_nibble(v));
    assert(s.skip(n + 1) =~= rest);
}

/// Leaving a nested struct brings back the last field id of the struct around
/// it: entering pushes the id and restarts at zero, leaving pops it.
pub proof fn lemma_nested_struct_restores_last_id(stack: Seq<i16>, last: i16)
    ensures
        stack.push(last).drop_last() == stack,
        stack.push(last).last() == last,
{
    assert(stack.push(last).drop_last() =~= stack);
}

/// A declared count above the container cap never fits, so decoders answer it
/// with `SizeLimit` (and a negative count with `NegativeSize`).
pub proof fn lemma_count_over_cap_rejected(c: TConfiguration, count: int, elem_bytes: int)
    requires
        c.container_limit() matches Some(cap) && count > cap,
    ensures
        !container_fits(c, count, elem_bytes),
{
}

/// With a recursion cap, the first `cap` nested struct entries from depth zero
/// are allowed and the next one is not.
pub proof fn lemma_depth_cap(c: TConfiguration, depth: nat)
    requires
        c.depth_limit() is Some,
    ensures
        !(c.depth_limit() matches Some(l) && depth >= l) <==> depth < c.depth_limit()->0,
{
}

/// A big-endian length prefix written for `n` bytes reads back as `n`.
pub proof fn lemma_binary_len_round_trip(n: nat, rest: Seq<u8>)
    requires
        n <= i32::MAX,
    ensures
        bin_len(bin_i32(n as i32) + rest) == n,
        (bin_i32(n as i32) + rest).len() >= 4,
{
    let x = n as i32;
    lemma_be_values(0, x as u32, 0);
    assert((x as u32) as i32 == x) by (bit_vector);
    let s = bin_i32(x) + rest;
    assert(be_u32_value(s) == be_u32_value(bin_i32(x)));
}

/// Big-endian scalars read back unchanged.
pub proof fn lemma_binary_int_round_trip(x16: i16, x32: i32, x64: i64)
    ensures
        be_u16_value(bin_i16(x16)) as i16 == x16,
        be_u32_value(bin_i32(x32)) as i32 == x32,
        be_u64_value(bin_i64(x64)) as i64 == x64,
{
    lemma_be_values(x16 as u16, x32 as u32, x64 as u64);
    assert((x16 as u16) as i16 == x16) by (bit_vector);
    assert((x32 as u32) as i32 == x32) by (bit_vector);
    assert((x64 as u64) as i64 == x64) by (bit_vector);
}

/// A binary byte string reads back as the bytes written, when the
/// configuration admits its length.
pub proof fn lemma_binary_bytes_round_trip(b: Seq<u8>, rest: Seq<u8>, c: TConfiguration)
    requires
        b.len() <= i32::MAX,
        string_fits(c, b.len() as int),
    ensures
        ({
            let s = bin_bytes(b) + rest;
            &&& bin_bytes_ok(s, c)
            &&& bin_payload(s) == b
            &&& s.skip(4 + bin_len(s)) == rest
        }),
{
    let s = bin_bytes(b) + rest;
    assert(s =~= bin_i32(b.len() as i32) + (b + rest));
    lemma_binary_len_round_trip(b.len(), b + rest);
    assert(bin_payload(s) =~= b);
    assert(s.skip(4 + b.len() as int) =~= rest);
}

/// A binary message header reads back with the name, the kind and the
/// sequence number that were written, in the versioned form always and in
/// the other form when the reader is not strict.
#[verifier::rlimit(60)]
pub proof fn lemma_binary_message_round_trip(
    versioned: bool,
    reader_strict: bool,
    name: Seq<char>,
    kind: TMessageType,
    seq: i32,
    rest: Seq<u8>,
    c: TConfiguration,
)
    requires
        versioned || !reader_strict,
        encode_utf8(name).len() <= i32::MAX,
        string_fits(c, encode_utf8(name).len() as int),
    ensures
        ({
            let s = bin_message(versioned, 0, encode_utf8(name), kind, seq) + rest;
            &&& bin_message_ok(s, reader_strict, c)
            &&& decode_utf8(bin_name(s)) == name
            &&& bin_kind_byte(s) == message_type_byte(kind)
            &&& be_u32_value(s.skip(bin_seq_at(s))) as i32 == seq
            &&& s.skip(bin_seq_at(s) + 4) == rest
        }),
{
    let nb = encode_utf8(name);
    let s = bin_message(versioned, 0, nb, kind, seq) + rest;
    let kb = message_type_byte(kind);
    let n = nb.len() as int;
    encode_utf8_valid_utf8(name);
    encode_utf8_decode_utf8(name);
    lemma_binary_int_round_trip(0, seq, 0);
    if versioned {
        let tail = bin_bytes(nb) + (bin_i32(seq) + rest);
        assert(s =~= seq![0x80u8, 0x01u8, 0u8, kb] + tail);
        assert(s.skip(4) =~= tail);
        lemma_binary_bytes_round_trip(nb, bin_i32(seq) + rest, c);
        lemma_binary_len_round_trip(nb.len(), nb + (bin_i32(seq) + rest));
        assert(s.skip(8 + n) =~= bin_i32(seq) + rest);
        assert(be_u32_value(bin_i32(seq) + rest) == be_u32_value(bin_i32(seq)));
        assert(s.skip(12 + n) =~= rest);
    } else {
        let x = nb.len() as i32;
        assert(s =~= bin_bytes(nb) + (seq![kb] + bin_i32(seq) + rest));
        lemma_binary_bytes_round_trip(nb, seq![kb] + bin_i32(seq) + rest, c);
        lemma_binary_len_round_trip(nb.len(), nb + (seq![kb] + bin_i32(seq) + rest));
        assert(s[0] == ((x as u32) >> 24u32) as u8);
        assert((((x as u32) >> 24u32) as u8) < 128) by (bit_vector)
            requires
                0 <= x,
        ;
        assert(s[4 + n] == kb);
        assert(s.skip(5 + n) =~= bin_i32(seq) + rest);
        assert(be_u32_value(bin_i32(seq) + rest) == be_u32_value(bin_i32(seq)));
        assert(s.skip(9 + n) =~= rest);
    }
}

/// A binary field header reads back with the type and the id that were
/// written; the legacy `Utf7` reads back as `String`.
pub proof fn lemma_binary_field_round_trip(t: TType, id: i16, rest: Seq<u8>)
    requires
        t != TType::Stop,
        t != TType::Utf7,
    ensures
        ({
            let s = bin_field(t, id) + rest;
            &&& s.len() >= 3
            &&& binary_byte_type(s[0]) == Some(t)
            &&& be_u16_value(s.skip(1)) as i16 == id
            &&& s.skip(3) == rest
        }),
{
    let s = bin_field(t, id) + rest;
    lemma_binary_int_round_trip(id, 0, 0);
    assert(s.skip(1) =~= bin_i16(id) + rest);
    assert(be_u16_value(bin_i16(id) + rest) == be_u16_value(bin_i16(id)));
    assert(s.skip(3) =~= rest);
}

/// A binary list or set header reads back with the element type and the
/// count that were written, when the configuration admits the count.
pub proof fn lemma_binary_sequence_round_trip(t: TType, size: i32, rest: Seq<u8>, c: TConfiguration)
    requires
        t != TType::Utf7,
        container_fits(c, size as int, binary_min_size(t) as int),
    ensures
        ({
            let s = seq![binary_type_byte(t)] + bin_i32(size) + rest;
            &&& bin_sequence_ok(s, c)
            &&& binary_byte_type(s[0]) == Some(t)
            &&& bin_len(s.skip(1)) == size
            &&& s.skip(5) == rest
        }),
{
    let s = seq![binary_type_byte(t)] + bin_i32(size) + rest;
    lemma_binary_int_round_trip(0, size, 0);
    assert(s.skip(1) =~= bin_i32(size) + rest);
    assert(be_u32_value(bin_i32(size) + rest) == be_u32_value(bin_i32(size)));
    assert(s.skip(5) =~= rest);
}

/// A binary map header reads back with the key type, the value type and the
/// count that were written, when the configuration admits the count.
pub proof fn lemma_binary_map_round_trip(
    k: TType,
    v: TType,
    size: i32,
    rest: Seq<u8>,
    c: TConfiguration,
)
    requires
        k != TType::Utf7,
        v != TType::Utf7,
        container_fits(c, size as int, (binary_min_size(k) + binary_min_size(v)) as int),
    ensures
        ({
            let s = seq![binary_type_byte(k), binary_type_byte(v)] + bin_i32(size) + rest;
            &&& bin_map_ok(s, c)
            &&& binary_byte_type(s[0]) == Some(k)
            &&& binary_byte_type(s[1]) == Some(v)
            &&& bin_len(s.skip(2)) == size
            &&& s.skip(6) == rest
        }),
{
    let s = seq![binary_type_byte(k), binary_type_byte(v)] + bin_i32(size) + rest;
    lemma_binary_int_round_trip(0, size, 0);
    assert(s.skip(2) =~= bin_i32(size) + rest);
    assert(be_u32_value(bin_i32(size) + rest) == be_u32_value(bin_i32(size)));
    assert(s.skip(6) =~= rest);
}

} // verus!
