//! Little-endian encoding of the fixed-size integers that the UDP messages
//! carry: a message is a one-byte id followed by a 4-byte id field and the
//! 8 bytes of an IEEE-754 double.
use vstd::prelude::*;

verus! {

/// The four bytes of `v`, least significant first.
pub open spec fn u32_le(v: u32) -> Seq<u8> {
    seq![
        (v & 0xff) as u8,
        ((v >> 8u32) & 0xff) as u8,
        ((v >> 16u32) & 0xff) as u8,
        ((v >> 24u32) & 0xff) as u8,
    ]
}

/// The `u32` whose little-endian bytes are `b[0..4]`.
pub open spec fn u32_from_le(b: Seq<u8>) -> u32 {
    bytes4_value(b[0], b[1], b[2], b[3])
}

pub open spec fn bytes4_value(b0: u8, b1: u8, b2: u8, b3: u8) -> u32 {
    (b0 as u32) | ((b1 as u32) << 8u32) | ((b2 as u32) << 16u32) | ((b3 as u32) << 24u32)
}

/// The eight bytes of `v`, least significant first.
pub open spec fn u64_le(v: u64) -> Seq<u8> {
    seq![
        (v & 0xff) as u8,
        ((v >> 8u64) & 0xff) as u8,
        ((v >> 16u64) & 0xff) as u8,
        ((v >> 24u64) & 0xff) as u8,
        ((v >> 32u64) & 0xff) as u8,
        ((v >> 40u64) & 0xff) as u8,
        ((v >> 48u64) & 0xff) as u8,
        ((v >> 56u64) & 0xff) as u8,
    ]
}

pub open spec fn bytes8_value(
    b0: u8,
    b1: u8,
    b2: u8,
    b3: u8,
    b4: u8,
    b5: u8,
    b6: u8,
    b7: u8,
) -> u64 {
    (b0 as u64) | ((b1 as u64) << 8u64) | ((b2 as u64) << 16u64) | ((b3 as u64) << 24u64) | ((
    b4 as u64) << 32u64) | ((b5 as u64) << 40u64) | ((b6 as u64) << 48u64) | ((b7 as u64)
        << 56u64)
}

/// The `u64` whose little-endian bytes are `b[0..8]`.
pub open spec fn u64_from_le(b: Seq<u8>) -> u64 {
    bytes8_value(b[0], b[1], b[2], b[3], b[4], b[5], b[6], b[7])
}

/// The four bytes of an `i32` in two's complement, least significant first.
pub open spec fn i32_le(v: i32) -> Seq<u8> {
    u32_le(v as u32)
}

/// The `i32` whose two's-complement little-endian bytes are `b[0..4]`.
pub open spec fn i32_from_le(b: Seq<u8>) -> i32 {
    u32_from_le(b) as i32
}

proof fn lemma_u32_bytes(v: u32)
    ensures
        bytes4_value(
            (v & 0xff) as u8,
            ((v >> 8u32) & 0xff) as u8,
            ((v >> 16u32) & 0xff) as u8,
            ((v >> 24u32) & 0xff) as u8,
        ) == v,
{
    assert(((v & 0xff) as u8 as u32) | ((((v >> 8u32) & 0xff) as u8 as u32) << 8u32) | (((
    (v >> 16u32) & 0xff) as u8 as u32) << 16u32) | ((((v >> 24u32) & 0xff) as u8 as u32)
        << 24u32) == v) by (bit_vector);
}

proof fn lemma_u32_value(b0: u8, b1: u8, b2: u8, b3: u8)
    ensures
        u32_le(bytes4_value(b0, b1, b2, b3)) == seq![b0, b1, b2, b3],
{
    let v = bytes4_value(b0, b1, b2, b3);
    assert(v == (b0 as u32) | ((b1 as u32) << 8u32) | ((b2 as u32) << 16u32) | ((b3 as u32)
        << 24u32));
    assert((v & 0xff) as u8 == b0 && ((v >> 8u32) & 0xff) as u8 == b1 && ((v >> 16u32) & 0xff) as u8
        == b2 && ((v >> 24u32) & 0xff) as u8 == b3) by (bit_vector)
        requires
            v == (b0 as u32) | ((b1 as u32) << 8u32) | ((b2 as u32) << 16u32) | ((b3 as u32)
                << 24u32),
    ;
    assert(u32_le(v) =~= seq![b0, b1, b2, b3]);
}

/// Law: reading back the bytes of a `u32` gives the `u32`.
pub proof fn lemma_u32_round_trip(v: u32)
    ensures
        u32_le(v).len() == 4,
        u32_from_le(u32_le(v)) == v,
{
    lemma_u32_bytes(v);
}

/// Law: writing the `u32` read from four bytes gives those bytes.
pub proof fn lemma_u32_bytes_round_trip(b: Seq<u8>)
    requires
        b.len() == 4,
    ensures
        u32_le(u32_from_le(b)) == b,
{
    lemma_u32_value(b[0], b[1], b[2], b[3]);
    assert(b =~= seq![b[0], b[1], b[2], b[3]]);
}

/// Law: reading back the bytes of an `i32` gives the `i32`.
pub proof fn lemma_i32_round_trip(v: i32)
    ensures
        i32_le(v).len() == 4,
        i32_from_le(i32_le(v)) == v,
{
    lemma_u32_bytes(v as u32);
    assert((v as u32) as i32 == v) by (bit_vector);
}

/// Law: writing the `i32` read from four bytes gives those bytes.
pub proof fn lemma_i32_bytes_round_trip(b: Seq<u8>)
    requires
        b.len() == 4,
    ensures
        i32_le(i32_from_le(b)) == b,
{
    let u = u32_from_le(b);
    assert((u as i32) as u32 == u) by (bit_vector);
    lemma_u32_bytes_round_trip(b);
}

proof fn lemma_u64_bytes(v: u64)
    ensures
        bytes8_value(
            (v & 0xff) as u8,
            ((v >> 8u64) & 0xff) as u8,
            ((v >> 16u64) & 0xff) as u8,
            ((v >> 24u64) & 0xff) as u8,
            ((v >> 32u64) & 0xff) as u8,
            ((v >> 40u64) & 0xff) as u8,
            ((v >> 48u64) & 0xff) as u8,
            ((v >> 56u64) & 0xff) as u8,
        ) == v,
{
    assert(((v & 0xff) as u8 as u64) | ((((v >> 8u64) & 0xff) as u8 as u64) << 8u64) | (((
    (v >> 16u64) & 0xff) as u8 as u64) << 16u64) | ((((v >> 24u64) & 0xff) as u8 as u64)
        << 24u64) | ((((v >> 32u64) & 0xff) as u8 as u64) << 32u64) | ((((v >> 40u64) & 0xff) as u8
        as u64) << 40u64) | ((((v >> 48u64) & 0xff) as u8 as u64) << 48u64) | ((((v >> 56u64)
        & 0xff) as u8 as u64) << 56u64) == v) by (bit_vector);
}

proof fn lemma_u64_value(b0: u8, b1: u8, b2: u8, b3: u8, b4: u8, b5: u8, b6: u8, b7: u8)
    ensures
        u64_le(bytes8_value(b0, b1, b2, b3, b4, b5, b6, b7)) == seq![b0, b1, b2, b3, b4, b5, b6, b7],
{
    let v = bytes8_value(b0, b1, b2, b3, b4, b5, b6, b7);
    assert((v & 0xff) as u8 == b0 && ((v >> 8u64) & 0xff) as u8 == b1 && ((v >> 16u64) & 0xff) as u8
        == b2 && ((v >> 24u64) & 0xff) as u8 == b3 && ((v >> 32u64) & 0xff) as u8 == b4 && ((v
        >> 40u64) & 0xff) as u8 == b5 && ((v >> 48u64) & 0xff) as u8 == b6 && ((v >> 56u64) & 0xff)
        as u8 == b7) by (bit_vector)
        requires
            v == (b0 as u64) | ((b1 as u64) << 8u64) | ((b2 as u64) << 16u64) | ((b3 as u64)
                << 24u64) | ((b4 as u64) << 32u64) | ((b5 as u64) << 40u64) | ((b6 as u64)
                << 48u64) | ((b7 as u64) << 56u64),
    ;
    assert(u64_le(v) =~= seq![b0, b1, b2, b3, b4, b5, b6, b7]);
}

/// Law: reading back the bytes of a `u64` gives the `u64`.
pub proof fn lemma_u64_round_trip(v: u64)
    ensures
        u64_le(v).len() == 8,
        u64_from_le(u64_le(v)) == v,
{
    lemma_u64_bytes(v);
}

/// Law: writing the `u64` read from eight bytes gives those bytes.
pub proof fn lemma_u64_bytes_round_trip(b: Seq<u8>)
    requires
        b.len() == 8,
    ensures
        u64_le(u64_from_le(b)) == b,
{
    lemma_u64_value(b[0], b[1], b[2], b[3], b[4], b[5], b[6], b[7]);
    assert(b =~= seq![b[0], b[1], b[2], b[3], b[4], b[5], b[6], b[7]]);
}

/// Appends the little-endian bytes of `v`.
pub fn put_u32_le(out: &mut Vec<u8>, v: u32)
    ensures
        final(out)@ == old(out)@ + u32_le(v),
{
    out.push((v & 0xff) as u8);
    out.push(((v >> 8u32) & 0xff) as u8);
    out.push(((v >> 16u32) & 0xff) as u8);
    out.push(((v >> 24u32) & 0xff) as u8);
    assert(out@ =~= old(out)@ + u32_le(v));
}

/// Appends the two's-complement little-endian bytes of `v`.
pub fn put_i32_le(out: &mut Vec<u8>, v: i32)
    ensures
        final(out)@ == old(out)@ + i32_le(v),
{
    put_u32_le(out, v as u32);
}

/// Appends the little-endian bytes of `v`.
pub fn put_u64_le(out: &mut Vec<u8>, v: u64)
    ensures
        final(out)@ == old(out)@ + u64_le(v),
{
    out.push((v & 0xff) as u8);
    out.push(((v >> 8u64) & 0xff) as u8);
    out.push(((v >> 16u64) & 0xff) as u8);
    out.push(((v >> 24u64) & 0xff) as u8);
    out.push(((v >> 32u64) & 0xff) as u8);
    out.push(((v >> 40u64) & 0xff) as u8);
    out.push(((v >> 48u64) & 0xff) as u8);
    out.push(((v >> 56u64) & 0xff) as u8);
    assert(out@ =~= old(out)@ + u64_le(v));
}

/// The `u32` stored little-endian at `data[pos..pos + 4]`.
pub fn get_u32_le(data: &[u8], pos: usize) -> (r: u32)
    requires
        pos + 4 <= data@.len(),
    ensures
        r == u32_from_le(data@.subrange(pos as int, pos + 4)),
{
    (data[pos] as u32) | ((data[pos + 1] as u32) << 8u32) | ((data[pos + 2] as u32) << 16u32) | ((
    data[pos + 3] as u32) << 24u32)
}

/// The `i32` stored in two's complement little-endian at `data[pos..pos + 4]`.
pub fn get_i32_le(data: &[u8], pos: usize) -> (r: i32)
    requires
        pos + 4 <= data@.len(),
    ensures
        r == i32_from_le(data@.subrange(pos as int, pos + 4)),
{
    get_u32_le(data, pos) as i32
}

/// The `u64` stored little-endian at `data[pos..pos + 8]`.
pub fn get_u64_le(data: &[u8], pos: usize) -> (r: u64)
    requires
        pos + 8 <= data@.len(),
    ensures
        r == u64_from_le(data@.subrange(pos as int, pos + 8)),
{
    (data[pos] as u64) | ((data[pos + 1] as u64) << 8u64) | ((data[pos + 2] as u64) << 16u64) | ((
    data[pos + 3] as u64) << 24u64) | ((data[pos + 4] as u64) << 32u64) | ((data[pos + 5] as u64)
        << 40u64) | ((data[pos + 6] as u64) << 48u64) | ((data[pos + 7] as u64) << 56u64)
}

/// The number that four bytes from `i` on denote, least significant first.
pub open spec fn le_number4(b: Seq<u8>, i: int) -> int {
    b[i] as int + 256 * (b[i + 1] as int) + 65536 * (b[i + 2] as int) + 16777216 * (b[i + 3] as int)
}

/// The number that eight bytes from `i` on denote, least significant first.
pub open spec fn le_number8(b: Seq<u8>, i: int) -> int {
    le_number4(b, i) + 4294967296 * le_number4(b, i + 4)
}

/// Law: the `u32` read from four bytes is the number they denote, least
/// significant byte first.
pub proof fn lemma_u32_from_le_number(b: Seq<u8>)
    requires
        b.len() >= 4,
    ensures
        u32_from_le(b) as int == le_number4(b, 0),
{
    let (b0, b1, b2, b3) = (b[0], b[1], b[2], b[3]);
    assert(bytes4_value(b0, b1, b2, b3) as u64 == (b0 as u64) + (b1 as u64) * 256 + (b2 as u64) * 65536
        + (b3 as u64) * 16777216) by (bit_vector);
}

/// Law: the `u64` read from eight bytes is the number they denote, least
/// significant byte first.
pub proof fn lemma_u64_from_le_number(b: Seq<u8>)
    requires
        b.len() >= 8,
    ensures
        u64_from_le(b) as int == le_number8(b, 0),
{
    let (b0, b1, b2, b3, b4, b5, b6, b7) = (b[0], b[1], b[2], b[3], b[4], b[5], b[6], b[7]);
    let lo = (b0 as u64) + (b1 as u64) * 256 + (b2 as u64) * 65536 + (b3 as u64) * 16777216;
    let hi = (b4 as u64) + (b5 as u64) * 256 + (b6 as u64) * 65536 + (b7 as u64) * 16777216;
    assert(bytes8_value(b0, b1, b2, b3, b4, b5, b6, b7) == ((b0 as u64) + (b1 as u64) * 256 + (b2 as u64)
        * 65536 + (b3 as u64) * 16777216) + ((b4 as u64) + (b5 as u64) * 256 + (b6 as u64) * 65536 + (
    b7 as u64) * 16777216) * 4294967296) by (bit_vector);
    assert(le_number4(b, 0) == lo);
    assert(le_number4(b, 4) == hi);
}

/// Law: the `i32` read from four bytes is the number they denote in two's
/// complement: as unsigned below 2^31, less 2^32 from there on.
pub proof fn lemma_i32_from_le_number(b: Seq<u8>)
    requires
        b.len() >= 4,
    ensures
        i32_from_le(b) as int == (if le_number4(b, 0) < 0x8000_0000 {
            le_number4(b, 0)
        } else {
            le_number4(b, 0) - 0x1_0000_0000
        }),
{
    lemma_u32_from_le_number(b);
    let u = u32_from_le(b);
    assert(u < 0x8000_0000u32 ==> (u as i32) as i64 == u as i64) by (bit_vector);
    assert(u >= 0x8000_0000u32 ==> (u as i32) as i64 == (u as i64) - 0x1_0000_0000i64) by (bit_vector);
}

/// A record with a signed id: the id then the 64 bits of the value.
pub open spec fn signed_record_le(id: i32, value_bits: u64) -> Seq<u8> {
    i32_le(id) + u64_le(value_bits)
}

/// A record with an unsigned id: the id then the 64 bits of the value.
pub open spec fn unsigned_record_le(id: u32, value_bits: u64) -> Seq<u8> {
    u32_le(id) + u64_le(value_bits)
}

/// Whether `data` holds `n` bytes from `pos` on.
pub open spec fn has_bytes(data: Seq<u8>, pos: int, n: int) -> bool {
    0 <= pos && pos + n <= data.len()
}

/// Law: a signed record is 12 bytes, and its fields read back from them.
pub proof fn lemma_signed_record_round_trip(id: i32, value_bits: u64)
    ensures
        signed_record_le(id, value_bits).len() == 12,
        i32_from_le(signed_record_le(id, value_bits).subrange(0, 4)) == id,
        u64_from_le(signed_record_le(id, value_bits).subrange(4, 12)) == value_bits,
{
    lemma_i32_round_trip(id);
    lemma_u64_round_trip(value_bits);
    assert(signed_record_le(id, value_bits).subrange(0, 4) =~= i32_le(id));
    assert(signed_record_le(id, value_bits).subrange(4, 12) =~= u64_le(value_bits));
}

/// Law: twelve bytes read as a signed record and written again are the same bytes.
pub proof fn lemma_signed_record_bytes_round_trip(b: Seq<u8>)
    requires
        b.len() == 12,
    ensures
        signed_record_le(i32_from_le(b.subrange(0, 4)), u64_from_le(b.subrange(4, 12))) == b,
{
    lemma_i32_bytes_round_trip(b.subrange(0, 4));
    lemma_u64_bytes_round_trip(b.subrange(4, 12));
    assert(b =~= b.subrange(0, 4) + b.subrange(4, 12));
}

/// Law: an unsigned record is 12 bytes, and its fields read back from them.
pub proof fn lemma_unsigned_record_round_trip(id: u32, value_bits: u64)
    ensures
        unsigned_record_le(id, value_bits).len() == 12,
        u32_from_le(unsigned_record_le(id, value_bits).subrange(0, 4)) == id,
        u64_from_le(unsigned_record_le(id, value_bits).subrange(4, 12)) == value_bits,
{
    lemma_u32_round_trip(id);
    lemma_u64_round_trip(value_bits);
    assert(unsigned_record_le(id, value_bits).subrange(0, 4) =~= u32_le(id));
    assert(unsigned_record_le(id, value_bits).subrange(4, 12) =~= u64_le(value_bits));
}

/// Law: twelve bytes read as an unsigned record and written again are the same bytes.
pub proof fn lemma_unsigned_record_bytes_round_trip(b: Seq<u8>)
    requires
        b.len() == 12,
    ensures
        unsigned_record_le(u32_from_le(b.subrange(0, 4)), u64_from_le(b.subrange(4, 12))) == b,
{
    lemma_u32_bytes_round_trip(b.subrange(0, 4));
    lemma_u64_bytes_round_trip(b.subrange(4, 12));
    assert(b =~= b.subrange(0, 4) + b.subrange(4, 12));
}

/// The signed record at `data[pos..pos + 12]`, if the bytes are there.
pub fn read_signed_record(data: &[u8], pos: usize) -> (r: Option<(i32, u64)>)
    ensures
        r == (if has_bytes(data@, pos as int, 12) {
            Some(
                (
                    i32_from_le(data@.subrange(pos as int, pos + 4)),
                    u64_from_le(data@.subrange(pos + 4, pos + 12)),
                ),
            )
        } else {
            None
        }),
{
    if pos <= data.len() && data.len() - pos >= 12 {
        Some((get_i32_le(data, pos), get_u64_le(data, pos + 4)))
    } else {
        None
    }
}

/// The unsigned record at `data[pos..pos + 12]`, if the bytes are there.
pub fn read_unsigned_record(data: &[u8], pos: usize) -> (r: Option<(u32, u64)>)
    ensures
        r == (if has_bytes(data@, pos as int, 12) {
            Some(
                (
                    u32_from_le(data@.subrange(pos as int, pos + 4)),
                    u64_from_le(data@.subrange(pos + 4, pos + 12)),
                ),
            )
        } else {
            None
        }),
{
    if pos <= data.len() && data.len() - pos >= 12 {
        Some((get_u32_le(data, pos), get_u64_le(data, pos + 4)))
    } else {
        None
    }
}

} // verus!
