//! Byte-level encodings shared by the codecs: fixed-width integers in either
//! byte order, and LEB128 varints with and without zig-zag.

use vstd::prelude::*;
use integer_encoding::VarInt;
use vstd::slice::slice_subrange;
use crate::channel::TBufferChannel;
use vstd::utf8::{decode_utf8, valid_utf8};
use crate::errors::{is_end_of_file, is_protocol_error, protocol_error, ProtocolErrorKind, Result};

verus! {

/// The two bytes of `x`, most significant first.
pub open spec fn be_u16(x: u16) -> Seq<u8> {
    seq![(x >> 8u16) as u8, x as u8]
}

/// The four bytes of `x`, most significant first.
pub open spec fn be_u32(x: u32) -> Seq<u8> {
    seq![(x >> 24u32) as u8, (x >> 16u32) as u8, (x >> 8u32) as u8, x as u8]
}

/// The eight bytes of `x`, most significant first.
pub open spec fn be_u64(x: u64) -> Seq<u8> {
    seq![
        (x >> 56u64) as u8,
        (x >> 48u64) as u8,
        (x >> 40u64) as u8,
        (x >> 32u64) as u8,
        (x >> 24u64) as u8,
        (x >> 16u64) as u8,
        (x >> 8u64) as u8,
        x as u8,
    ]
}

/// The eight bytes of `x`, least significant first.
pub open spec fn le_u64(x: u64) -> Seq<u8> {
    seq![
        x as u8,
        (x >> 8u64) as u8,
        (x >> 16u64) as u8,
        (x >> 24u64) as u8,
        (x >> 32u64) as u8,
        (x >> 40u64) as u8,
        (x >> 48u64) as u8,
        (x >> 56u64) as u8,
    ]
}

/// The number that two bytes spell, most significant first.
pub open spec fn be_u16_value(s: Seq<u8>) -> u16 {
    (s[0] as u16) << 8u16 | (s[1] as u16)
}

/// The number that four bytes spell, most significant first.
pub open spec fn be_u32_value(s: Seq<u8>) -> u32 {
    (s[0] as u32) << 24u32 | (s[1] as u32) << 16u32 | (s[2] as u32) << 8u32 | (s[3] as u32)
}

/// The number that eight bytes spell, most significant first.
pub open spec fn be_u64_value(s: Seq<u8>) -> u64 {
    (be_u32_value(s.take(4)) as u64) << 32u64 | (be_u32_value(s.skip(4)) as u64)
}

/// The number that eight bytes spell, least significant first.
pub open spec fn le_u64_value(s: Seq<u8>) -> u64 {
    be_u64_value(seq![s[7], s[6], s[5], s[4], s[3], s[2], s[1], s[0]])
}

/// The LEB128 encoding of `n`: seven bits per byte, least significant group
/// first, the high bit set on every byte but the last.
pub open spec fn leb128(n: nat) -> Seq<u8>
    decreases n,
{
    if n < 128 {
        seq![n as u8]
    } else {
        seq![(n % 128 + 128) as u8] + leb128(n / 128)
    }
}

/// The number that the seven-bit groups of `s` spell, least significant first.
pub open spec fn leb128_value(s: Seq<u8>) -> nat
    decreases s.len(),
{
    if s.len() == 0 {
        0
    } else {
        (s[0] % 128) as nat + 128 * leb128_value(s.drop_first())
    }
}

/// The length of the varint at the front of `s`: up to and including the
/// first byte below 0x80. Zero when every byte of `s` has its high bit set.
pub open spec fn varint_len(s: Seq<u8>) -> nat
    decreases s.len(),
{
    if s.len() == 0 {
        0
    } else if s[0] < 128 {
        1
    } else {
        let k = varint_len(s.drop_first());
        if k == 0 {
            0
        } else {
            k + 1
        }
    }
}

/// Zig-zag: 0, -1, 1, -2, 2, ... map to 0, 1, 2, 3, 4, ...
pub open spec fn zigzag(n: int) -> nat {
    if n >= 0 {
        (2 * n) as nat
    } else {
        (-2 * n - 1) as nat
    }
}

/// The inverse of `zigzag`.
pub open spec fn unzigzag(u: nat) -> int {
    if u % 2 == 0 {
        (u / 2) as int
    } else {
        -((u + 1) / 2)
    }
}

pub open spec fn pow2_64() -> nat {
    0x1_0000_0000_0000_0000nat
}

/// Relies on integer_encoding's `VarInt::encode_var_vec` for `u64`: the LEB128
/// encoding of `n`.
#[verifier::external_body]
pub(crate) fn encode_varint_u64(n: u64) -> (r: Vec<u8>)
    ensures
        r@ == leb128(n as nat),
{
    n.encode_var_vec()
}

/// Relies on integer_encoding's `VarInt::encode_var_vec` for `i64`: the LEB128
/// encoding of the zig-zag image of `n`.
#[verifier::external_body]
pub(crate) fn encode_varint_i64(n: i64) -> (r: Vec<u8>)
    ensures
        r@ == leb128(zigzag(n as int)),
{
    n.encode_var_vec()
}

/// Relies on integer_encoding's `VarInt::decode_var` for `u64`: on one whole
/// varint of at most ten bytes, its value modulo 2^64 and its length.
#[verifier::external_body]
pub(crate) fn decode_varint_u64(src: &[u8]) -> (r: Option<(u64, usize)>)
    ensures
        1 <= src@.len() <= 10 && varint_len(src@) == src@.len() ==> r == Some(
            ((leb128_value(src@) % pow2_64()) as u64, src@.len() as usize),
        ),
{
    u64::decode_var(src)
}

/// Relies on integer_encoding's `VarInt::decode_var` for `i64`: on one whole
/// varint of at most ten bytes, the zig-zag decoding of its value modulo 2^64,
/// and its length.
#[verifier::external_body]
pub(crate) fn decode_varint_i64(src: &[u8]) -> (r: Option<(i64, usize)>)
    ensures
        1 <= src@.len() <= 10 && varint_len(src@) == src@.len() ==> r == Some(
            (unzigzag(leb128_value(src@) % pow2_64()) as i64, src@.len() as usize),
        ),
{
    i64::decode_var(src)
}

/// The value of the two bytes `b`, most significant first.
pub(crate) fn decode_be_u16(b: &[u8]) -> (r: u16)
    requires
        b@.len() == 2,
    ensures
        be_u16(r) == b@,
        r == be_u16_value(b@),
{
    let b0 = b[0];
    let b1 = b[1];
    let r: u16 = (b0 as u16) << 8u16 | (b1 as u16);
    assert((r >> 8u16) as u8 == b0 && r as u8 == b1) by (bit_vector)
        requires
            r == (b0 as u16) << 8u16 | (b1 as u16),
    ;
    assert(be_u16(r) =~= b@);
    r
}

/// The value of the four bytes `b`, most significant first.
pub(crate) fn decode_be_u32(b: &[u8]) -> (r: u32)
    requires
        b@.len() == 4,
    ensures
        be_u32(r) == b@,
        r == be_u32_value(b@),
{
    let b0 = b[0];
    let b1 = b[1];
    let b2 = b[2];
    let b3 = b[3];
    let r: u32 = (b0 as u32) << 24u32 | (b1 as u32) << 16u32 | (b2 as u32) << 8u32 | (b3 as u32);
    assert((r >> 24u32) as u8 == b0 && (r >> 16u32) as u8 == b1 && (r >> 8u32) as u8 == b2
        && r as u8 == b3) by (bit_vector)
        requires
            r == (b0 as u32) << 24u32 | (b1 as u32) << 16u32 | (b2 as u32) << 8u32 | (b3 as u32),
    ;
    assert(be_u32(r) =~= b@);
    r
}

/// The value of the eight bytes `b`, most significant first.
pub(crate) fn decode_be_u64(b: &[u8]) -> (r: u64)
    requires
        b@.len() == 8,
    ensures
        be_u64(r) == b@,
        r == be_u64_value(b@),
{
    let hi = decode_be_u32(slice_subrange(b, 0, 4));
    let lo = decode_be_u32(slice_subrange(b, 4, 8));
    let r: u64 = (hi as u64) << 32u64 | (lo as u64);
    assert((r >> 56u64) as u8 == (hi >> 24u32) as u8 && (r >> 48u64) as u8 == (hi >> 16u32) as u8
        && (r >> 40u64) as u8 == (hi >> 8u32) as u8 && (r >> 32u64) as u8 == hi as u8 && (r
        >> 24u64) as u8 == (lo >> 24u32) as u8 && (r >> 16u64) as u8 == (lo >> 16u32) as u8 && (r
        >> 8u64) as u8 == (lo >> 8u32) as u8 && r as u8 == lo as u8) by (bit_vector)
        requires
            r == (hi as u64) << 32u64 | (lo as u64),
    ;
    assert(be_u64(r) =~= be_u32(hi) + be_u32(lo));
    assert(b@ =~= b@.subrange(0, 4) + b@.subrange(4, 8));
    assert(b@.take(4) =~= b@.subrange(0, 4));
    assert(b@.skip(4) =~= b@.subrange(4, 8));
    r
}

/// The value of the eight bytes `b`, least significant first.
pub(crate) fn decode_le_u64(b: &[u8]) -> (r: u64)
    requires
        b@.len() == 8,
    ensures
        le_u64(r) == b@,
        r == le_u64_value(b@),
{
    let rev = [b[7], b[6], b[5], b[4], b[3], b[2], b[1], b[0]];
    let r = decode_be_u64(&rev);
    assert(le_u64(r) =~= b@);
    assert(rev@ =~= seq![b@[7], b@[6], b@[5], b@[4], b@[3], b@[2], b@[1], b@[0]]);
    r
}

/// 128 to the power `k`.
pub open spec fn pow128(k: nat) -> nat
    decreases k,
{
    if k == 0 {
        1
    } else {
        128 * pow128((k - 1) as nat)
    }
}

/// The value of the varint at the front of `s`, modulo 2^64.
pub open spec fn varint_value(s: Seq<u8>) -> nat {
    leb128_value(s.take(varint_len(s) as int)) % pow2_64()
}

/// The LEB128 encoding of `n` is one whole varint, whatever follows it, and it
/// spells `n`.
pub proof fn lemma_leb128(n: nat, rest: Seq<u8>)
    ensures
        leb128(n).len() >= 1,
        varint_len(leb128(n) + rest) == leb128(n).len(),
        (leb128(n) + rest).take(leb128(n).len() as int) == leb128(n),
        leb128_value(leb128(n)) == n,
    decreases n,
{
    let s = leb128(n) + rest;
    if n < 128 {
        assert(s[0] == n as u8);
        assert(leb128(n).drop_first() =~= Seq::<u8>::empty());
        assert(leb128_value(leb128(n)) == (leb128(n)[0] % 128) as nat + 128 * leb128_value(
            leb128(n).drop_first(),
        ));
    } else {
        let t = leb128(n / 128);
        lemma_leb128(n / 128, rest);
        assert(leb128(n) == seq![(n % 128 + 128) as u8] + t);
        assert(s.drop_first() =~= t + rest);
        assert(leb128(n).drop_first() =~= t);
        assert(s[0] == (n % 128 + 128) as u8);
        assert(((n % 128 + 128) as u8) % 128 == n % 128);
        assert(leb128_value(leb128(n)) == (leb128(n)[0] % 128) as nat + 128 * leb128_value(
            leb128(n).drop_first(),
        ));
        assert(n == n % 128 + 128 * (n / 128));
    }
    assert(s.take(leb128(n).len() as int) =~= leb128(n));
}

/// A number below 128^k takes at most `k` bytes.
pub proof fn lemma_leb128_len(n: nat, k: nat)
    requires
        k >= 1,
        n < pow128(k),
    ensures
        leb128(n).len() <= k,
    decreases n,
{
    if n >= 128 {
        let k1 = (k - 1) as nat;
        if k1 == 0 {
            assert(pow128(1) == 128 * pow128(0));
        }
        assert(pow128(k) == 128 * pow128(k1));
        assert(n / 128 < pow128(k1)) by (nonlinear_arith)
            requires
                n < 128 * pow128(k1),
        ;
        lemma_leb128_len(n / 128, k1);
        assert(leb128(n) == seq![(n % 128 + 128) as u8] + leb128(n / 128));
    }
}

pub proof fn lemma_pow128_values()
    ensures
        pow128(3) == 0x20_0000nat,
        pow128(5) == 0x8_0000_0000nat,
        pow128(10) == 0x40_0000_0000_0000_0000nat,
{
    assert(pow128(0) == 1);
    assert(pow128(1) == 128);
    assert(pow128(2) == 0x4000);
    assert(pow128(3) == 0x20_0000);
    assert(pow128(4) == 0x1000_0000);
    assert(pow128(5) == 0x8_0000_0000);
    assert(pow128(6) == 0x400_0000_0000);
    assert(pow128(7) == 0x2_0000_0000_0000);
    assert(pow128(8) == 0x100_0000_0000_0000);
    assert(pow128(9) == 0x8000_0000_0000_0000);
}

/// The varint length of `s` when its first `i` bytes all have the high bit set.
pub proof fn lemma_varint_len_after(s: Seq<u8>, i: nat)
    requires
        i <= s.len(),
        forall|j: int| 0 <= j < i ==> s[j] >= 128,
    ensures
        varint_len(s) == 0 || varint_len(s) > i,
        i < s.len() && s[i as int] < 128 ==> varint_len(s) == i + 1,
        i == s.len() ==> varint_len(s) == 0,
    decreases i,
{
    if i > 0 {
        let t = s.drop_first();
        assert forall|j: int| 0 <= j < (i - 1) as nat implies t[j] >= 128 by {
            assert(t[j] == s[j + 1]);
        }
        lemma_varint_len_after(t, (i - 1) as nat);
        if i < s.len() {
            assert(t[i - 1] == s[i as int]);
        }
    }
}

/// Takes the bytes of one varint of at most `max` bytes.
pub(crate) fn read_varint_bytes(ch: &mut TBufferChannel, max: usize) -> (r: Result<Vec<u8>>)
    requires
        1 <= max <= 10,
    ensures
        r is Ok <==> 1 <= varint_len(old(ch).unread()) <= max,
        r matches Ok(b) ==> {
            &&& b@.len() == varint_len(old(ch).unread())
            &&& b@ == old(ch).unread().take(varint_len(old(ch).unread()) as int)
            &&& final(ch).unread() == old(ch).unread().skip(b@.len() as int)
            &&& varint_len(b@) == b@.len()
        },
        r matches Err(e) ==> if varint_len(old(ch).unread()) == 0 && old(ch).unread().len() < max {
            is_end_of_file(e)
        } else {
            is_protocol_error(e, ProtocolErrorKind::InvalidData)
        },
        r is Ok ==> varint_len(old(ch).unread()) <= old(ch).unread().len(),
        final(ch).written() == old(ch).written(),
{
    let ghost s = ch.unread();
    let mut buf: Vec<u8> = Vec::new();
    loop
        invariant
            buf@.len() < max,
            buf@ == s.take(buf@.len() as int),
            buf@.len() <= s.len(),
            ch.unread() == s.skip(buf@.len() as int),
            forall|j: int| 0 <= j < buf@.len() ==> buf@[j] >= 128,
            ch.written() == old(ch).written(),
            s == old(ch).unread(),
            1 <= max <= 10,
        decreases max - buf@.len(),
    {
        let ghost i = buf@.len();
        assert forall|j: int| 0 <= j < i implies s[j] >= 128 by {
            assert(s.take(i as int)[j] == s[j]);
        }
        match ch.read_byte() {
            Ok(b) => {
                assert(b == s[i as int]);
                buf.push(b);
                assert(buf@ =~= s.take(i + 1 as int));
                assert(s.skip(i as int).skip(1) =~= s.skip(i + 1 as int));
                if b < 128 {
                    proof {
                        lemma_varint_len_after(s, i as nat);
                        lemma_varint_len_after(buf@, i as nat);
                    }
                    return Ok(buf);
                }
                if buf.len() == max {
                    proof {
                        lemma_varint_len_after(s, (i + 1) as nat);
                    }
                    return Err(protocol_error(ProtocolErrorKind::InvalidData, "Unterminated varint"));
                }
            },
            Err(e) => {
                proof {
                    assert(s.len() == i);
                    lemma_varint_len_after(s, i as nat);
                }
                return Err(e);
            },
        }
    }
}

/// Reads a varint of at most five bytes as an unsigned 32-bit number.
pub(crate) fn read_varint_u32(ch: &mut TBufferChannel) -> (r: Result<u32>)
    ensures
        r is Ok <==> 1 <= varint_len(old(ch).unread()) <= 5,
        r matches Ok(v) ==> v == varint_value(old(ch).unread()) as u32 && final(ch).unread()
            == old(ch).unread().skip(varint_len(old(ch).unread()) as int),
        r matches Err(e) ==> if varint_len(old(ch).unread()) == 0 && old(ch).unread().len() < 5 {
            is_end_of_file(e)
        } else {
            is_protocol_error(e, ProtocolErrorKind::InvalidData)
        },
        r is Ok ==> varint_len(old(ch).unread()) <= old(ch).unread().len(),
        final(ch).written() == old(ch).written(),
{
    let bytes = match read_varint_bytes(ch, 5) {
        Ok(b) => b,
        Err(e) => return Err(e),
    };
    match decode_varint_u64(bytes.as_slice()) {
        Some((v, _)) => Ok(v as u32),
        None => Err(protocol_error(ProtocolErrorKind::InvalidData, "Unterminated varint")),
    }
}

/// Reads a zig-zag varint of at most `max` bytes.
pub(crate) fn read_varint_i64(ch: &mut TBufferChannel, max: usize) -> (r: Result<i64>)
    requires
        1 <= max <= 10,
    ensures
        r is Ok <==> 1 <= varint_len(old(ch).unread()) <= max,
        r matches Ok(v) ==> v == unzigzag(varint_value(old(ch).unread())) as i64
            && final(ch).unread() == old(ch).unread().skip(varint_len(old(ch).unread()) as int),
        r matches Err(e) ==> if varint_len(old(ch).unread()) == 0 && old(ch).unread().len() < max {
            is_end_of_file(e)
        } else {
            is_protocol_error(e, ProtocolErrorKind::InvalidData)
        },
        r is Ok ==> varint_len(old(ch).unread()) <= old(ch).unread().len(),
        final(ch).written() == old(ch).written(),
{
    let bytes = match read_varint_bytes(ch, max) {
        Ok(b) => b,
        Err(e) => return Err(e),
    };
    match decode_varint_i64(bytes.as_slice()) {
        Some((v, _)) => Ok(v),
        None => Err(protocol_error(ProtocolErrorKind::InvalidData, "Unterminated varint")),
    }
}

/// Writes `n` as a LEB128 varint.
pub(crate) fn write_varint_u64(ch: &mut TBufferChannel, n: u64)
    ensures
        final(ch).written() == old(ch).written() + leb128(n as nat),
        final(ch).unread() == old(ch).unread(),
{
    let bytes = encode_varint_u64(n);
    ch.write_all(bytes.as_slice());
}

/// Writes `n` as a zig-zag LEB128 varint.
pub(crate) fn write_varint_i64(ch: &mut TBufferChannel, n: i64)
    ensures
        final(ch).written() == old(ch).written() + leb128(zigzag(n as int)),
        final(ch).unread() == old(ch).unread(),
{
    let bytes = encode_varint_i64(n);
    ch.write_all(bytes.as_slice());
}

/// Reading back the bytes of a number gives the number.
pub proof fn lemma_be_values(x16: u16, x32: u32, x64: u64)
    ensures
        be_u16_value(be_u16(x16)) == x16,
        be_u32_value(be_u32(x32)) == x32,
        be_u64_value(be_u64(x64)) == x64,
        le_u64_value(le_u64(x64)) == x64,
{
    assert((((x16 >> 8u16) as u8) as u16) << 8u16 | ((x16 as u8) as u16) == x16) by (bit_vector);
    assert((((x32 >> 24u32) as u8) as u32) << 24u32 | (((x32 >> 16u32) as u8) as u32) << 16u32 | (((
    x32 >> 8u32) as u8) as u32) << 8u32 | ((x32 as u8) as u32) == x32) by (bit_vector);
    let hi = (x64 >> 32u64) as u32;
    let lo = x64 as u32;
    assert(hi == (x64 >> 32u64) as u32 && lo == x64 as u32 ==> (hi >> 24u32) as u8 == (x64
        >> 56u64) as u8 && (hi >> 16u32) as u8 == (x64 >> 48u64) as u8 && (hi >> 8u32) as u8 == (x64
        >> 40u64) as u8 && hi as u8 == (x64 >> 32u64) as u8 && (lo >> 24u32) as u8 == (x64
        >> 24u64) as u8 && (lo >> 16u32) as u8 == (x64 >> 16u64) as u8 && (lo >> 8u32) as u8 == (x64
        >> 8u64) as u8 && lo as u8 == x64 as u8) by (bit_vector);
    assert(hi == (x64 >> 32u64) as u32 && lo == x64 as u32 ==> (hi as u64) << 32u64 | (lo as u64)
        == x64) by (bit_vector);
    assert(be_u64(x64).take(4) =~= be_u32(hi));
    assert(be_u64(x64).skip(4) =~= be_u32(lo));
    assert(be_u32_value(be_u32(hi)) == hi) by {
        assert((((hi >> 24u32) as u8) as u32) << 24u32 | (((hi >> 16u32) as u8) as u32) << 16u32 | (((
        hi >> 8u32) as u8) as u32) << 8u32 | ((hi as u8) as u32) == hi) by (bit_vector);
    }
    assert(be_u32_value(be_u32(lo)) == lo) by {
        assert((((lo >> 24u32) as u8) as u32) << 24u32 | (((lo >> 16u32) as u8) as u32) << 16u32 | (((
        lo >> 8u32) as u8) as u32) << 8u32 | ((lo as u8) as u32) == lo) by (bit_vector);
    }
    let l = le_u64(x64);
    assert(seq![l[7], l[6], l[5], l[4], l[3], l[2], l[1], l[0]] =~= be_u64(x64));
}

/// Writes the two bytes of `x`, most significant first.
pub(crate) fn write_be_u16(ch: &mut TBufferChannel, x: u16)
    ensures
        final(ch).written() == old(ch).written() + be_u16(x),
        final(ch).unread() == old(ch).unread(),
{
    let b = [(x >> 8u16) as u8, x as u8];
    assert(b@ =~= be_u16(x));
    ch.write_all(&b);
}

/// Writes the four bytes of `x`, most significant first.
pub(crate) fn write_be_u32(ch: &mut TBufferChannel, x: u32)
    ensures
        final(ch).written() == old(ch).written() + be_u32(x),
        final(ch).unread() == old(ch).unread(),
{
    let b = [(x >> 24u32) as u8, (x >> 16u32) as u8, (x >> 8u32) as u8, x as u8];
    assert(b@ =~= be_u32(x));
    ch.write_all(&b);
}

/// Writes the eight bytes of `x`, most significant first.
pub(crate) fn write_be_u64(ch: &mut TBufferChannel, x: u64)
    ensures
        final(ch).written() == old(ch).written() + be_u64(x),
        final(ch).unread() == old(ch).unread(),
{
    let b = [
        (x >> 56u64) as u8,
        (x >> 48u64) as u8,
        (x >> 40u64) as u8,
        (x >> 32u64) as u8,
        (x >> 24u64) as u8,
        (x >> 16u64) as u8,
        (x >> 8u64) as u8,
        x as u8,
    ];
    assert(b@ =~= be_u64(x));
    ch.write_all(&b);
}

/// Writes the eight bytes of `x`, least significant first.
pub(crate) fn write_le_u64(ch: &mut TBufferChannel, x: u64)
    ensures
        final(ch).written() == old(ch).written() + le_u64(x),
        final(ch).unread() == old(ch).unread(),
{
    let b = [
        x as u8,
        (x >> 8u64) as u8,
        (x >> 16u64) as u8,
        (x >> 24u64) as u8,
        (x >> 32u64) as u8,
        (x >> 40u64) as u8,
        (x >> 48u64) as u8,
        (x >> 56u64) as u8,
    ];
    assert(b@ =~= le_u64(x));
    ch.write_all(&b);
}

/// Takes two bytes and reads them most significant first.
pub(crate) fn read_be_u16(ch: &mut TBufferChannel) -> (r: Result<u16>)
    ensures
        r is Ok <==> old(ch).unread().len() >= 2,
        r matches Ok(v) ==> v == be_u16_value(old(ch).unread()) && final(ch).unread() == old(ch).unread().skip(2),
        r matches Err(e) ==> is_end_of_file(e),
        final(ch).written() == old(ch).written(),
{
    match ch.read_exact(2) {
        Ok(b) => Ok(decode_be_u16(b.as_slice())),
        Err(e) => Err(e),
    }
}

/// Takes four bytes and reads them most significant first.
pub(crate) fn read_be_u32(ch: &mut TBufferChannel) -> (r: Result<u32>)
    ensures
        r is Ok <==> old(ch).unread().len() >= 4,
        r matches Ok(v) ==> v == be_u32_value(old(ch).unread()) && final(ch).unread() == old(ch).unread().skip(4),
        r matches Err(e) ==> is_end_of_file(e),
        final(ch).written() == old(ch).written(),
{
    match ch.read_exact(4) {
        Ok(b) => Ok(decode_be_u32(b.as_slice())),
        Err(e) => Err(e),
    }
}

/// Takes eight bytes and reads them most significant first.
pub(crate) fn read_be_u64(ch: &mut TBufferChannel) -> (r: Result<u64>)
    ensures
        r is Ok <==> old(ch).unread().len() >= 8,
        r matches Ok(v) ==> v == be_u64_value(old(ch).unread().take(8)) && final(ch).unread()
            == old(ch).unread().skip(8),
        r matches Err(e) ==> is_end_of_file(e),
        final(ch).written() == old(ch).written(),
{
    match ch.read_exact(8) {
        Ok(b) => Ok(decode_be_u64(b.as_slice())),
        Err(e) => Err(e),
    }
}

/// Takes eight bytes and reads them least significant first.
pub(crate) fn read_le_u64(ch: &mut TBufferChannel) -> (r: Result<u64>)
    ensures
        r is Ok <==> old(ch).unread().len() >= 8,
        r matches Ok(v) ==> v == le_u64_value(old(ch).unread()) && final(ch).unread() == old(ch).unread().skip(8),
        r matches Err(e) ==> is_end_of_file(e),
        final(ch).written() == old(ch).written(),
{
    match ch.read_exact(8) {
        Ok(b) => Ok(decode_le_u64(b.as_slice())),
        Err(e) => Err(e),
    }
}

/// Relies on std's `String::from_utf8`: it succeeds exactly on valid UTF-8 and
/// keeps the characters that the bytes encode.
#[verifier::external_body]
pub(crate) fn string_from_utf8(b: Vec<u8>) -> (r: Option<String>)
    ensures
        r is Some <==> valid_utf8(b@),
        r matches Some(s) ==> s@ == decode_utf8(b@),
{
    String::from_utf8(b).ok()
}

} // verus!
