//! The binary UDP protocol of the udp2sqlite servers: a datagram is a
//! one-byte message id followed by the payload the id names.
use vstd::prelude::*;
use crate::wire::{lemma_signed_record_round_trip, lemma_signed_record_bytes_round_trip, le_number4, le_number8, lemma_i32_from_le_number, lemma_u64_from_le_number, i32_from_le, u64_from_le};

pub mod entity;

use self::entity::target;
use self::entity::unit;

verus! {

/// The id byte that opens every datagram.
#[derive(Debug, Clone, Copy, PartialEq, Eq, Structural)]
pub enum MsgId {
    Target,
    Unit,
}

/// Why the id byte could not be read.
#[derive(Debug, Clone, Copy, PartialEq, Eq, Structural)]
pub enum HeaderError {
    /// The datagram is empty.
    Empty,
    /// The byte names no message.
    UnknownId(u8),
}

impl MsgId {
    /// `Target` is `0x01`, `Unit` is `0x02`.
    pub open spec fn spec_byte(self) -> u8 {
        match self {
            MsgId::Target => 0x01,
            MsgId::Unit => 0x02,
        }
    }

    pub open spec fn spec_from_byte(b: u8) -> Option<MsgId> {
        if b == 0x01 {
            Some(MsgId::Target)
        } else if b == 0x02 {
            Some(MsgId::Unit)
        } else {
            None
        }
    }

    pub fn to_byte(&self) -> (r: u8)
        ensures
            r == self.spec_byte(),
    {
        match self {
            MsgId::Target => 0x01,
            MsgId::Unit => 0x02,
        }
    }

    pub fn from_byte(b: u8) -> (r: Option<MsgId>)
        ensures
            r == MsgId::spec_from_byte(b),
    {
        if b == 0x01 {
            Some(MsgId::Target)
        } else if b == 0x02 {
            Some(MsgId::Unit)
        } else {
            None
        }
    }

    /// Reads the id from the first byte of `data`.
    pub fn read_le(data: &[u8]) -> (r: Result<MsgId, HeaderError>)
        ensures
            data@.len() == 0 ==> r == Err::<MsgId, HeaderError>(HeaderError::Empty),
            data@.len() > 0 ==> r == (match MsgId::spec_from_byte(data@[0]) {
                Some(id) => Ok(id),
                None => Err(HeaderError::UnknownId(data@[0])),
            }),
    {
        if data.len() == 0 {
            Err(HeaderError::Empty)
        } else {
            match MsgId::from_byte(data[0]) {
                Some(id) => Ok(id),
                None => Err(HeaderError::UnknownId(data[0])),
            }
        }
    }

    /// Appends the id byte.
    pub fn write_le(&self, out: &mut Vec<u8>)
        ensures
            final(out)@ == old(out)@.push(self.spec_byte()),
    {
        out.push(self.to_byte());
    }
}

/// Law: every id byte that is written reads back as the same id, and no
/// other byte than these two names an id.
pub proof fn lemma_msg_id_round_trip(id: MsgId, b: u8)
    ensures
        MsgId::spec_from_byte(id.spec_byte()) == Some(id),
        MsgId::spec_from_byte(b) matches Some(j) ==> j.spec_byte() == b,
{
}

/// A whole datagram.
pub enum Message {
    Unit(unit::Dto),
    Target(target::Dto),
}

/// Why a datagram could not be read.
pub enum DecodeError {
    /// The id byte is missing or unknown.
    Header(HeaderError),
    /// The id was read but fewer than 12 payload bytes follow it.
    Payload(MsgId),
}

/// The bytes of a datagram: the id byte, then the payload.
pub open spec fn spec_encode(m: Message) -> Seq<u8> {
    match m {
        Message::Unit(d) => seq![MsgId::Unit.spec_byte()] + d.spec_bytes(),
        Message::Target(d) => seq![MsgId::Target.spec_byte()] + d.spec_bytes(),
    }
}

/// What the server reads from a datagram. Bytes after the 13th are ignored.
pub open spec fn spec_decode(b: Seq<u8>) -> Result<Message, DecodeError> {
    if b.len() == 0 {
        Err(DecodeError::Header(HeaderError::Empty))
    } else {
        match MsgId::spec_from_byte(b[0]) {
            None => Err(DecodeError::Header(HeaderError::UnknownId(b[0]))),
            Some(id) => if b.len() < 13 {
                Err(DecodeError::Payload(id))
            } else {
                match id {
                    MsgId::Unit => Ok(Message::Unit(unit::Dto::spec_from_bytes(b.subrange(1, 13)))),
                    MsgId::Target => Ok(
                        Message::Target(target::Dto::spec_from_bytes(b.subrange(1, 13))),
                    ),
                }
            },
        }
    }
}

/// Writes a datagram as the client sends it.
pub fn encode_datagram(m: &Message) -> (r: Vec<u8>)
    ensures
        r@ == spec_encode(*m),
{
    let mut out: Vec<u8> = Vec::new();
    match m {
        Message::Unit(d) => {
            MsgId::Unit.write_le(&mut out);
            d.write_le(&mut out);
        },
        Message::Target(d) => {
            MsgId::Target.write_le(&mut out);
            d.write_le(&mut out);
        },
    }
    assert(out@ =~= spec_encode(*m));
    out
}

/// Reads a datagram as the server does: the id byte, then the payload it names.
pub fn decode_datagram(data: &[u8]) -> (r: Result<Message, DecodeError>)
    ensures
        r == spec_decode(data@),
{
    match MsgId::read_le(data) {
        Err(e) => Err(DecodeError::Header(e)),
        Ok(id) => match id {
            MsgId::Unit => match unit::Dto::read_le(data, 1) {
                Some(d) => Ok(Message::Unit(d)),
                None => Err(DecodeError::Payload(MsgId::Unit)),
            },
            MsgId::Target => match target::Dto::read_le(data, 1) {
                Some(d) => Ok(Message::Target(d)),
                None => Err(DecodeError::Payload(MsgId::Target)),
            },
        },
    }
}

/// Law: the server reads back every datagram the client writes.
pub proof fn lemma_decode_encode(m: Message)
    ensures
        spec_decode(spec_encode(m)) == Ok::<Message, DecodeError>(m),
{
    match m {
        Message::Unit(d) => {
            lemma_signed_record_round_trip(d.id, d.value_bits);
            assert(spec_encode(m).subrange(1, 13) =~= d.spec_bytes());
        },
        Message::Target(d) => {
            lemma_signed_record_round_trip(d.id, d.value_bits);
            assert(spec_encode(m).subrange(1, 13) =~= d.spec_bytes());
        },
    }
}

/// Law: a datagram that the server reads is, in its first 13 bytes, the
/// datagram the client writes for what was read.
pub proof fn lemma_encode_decode(b: Seq<u8>)
    requires
        spec_decode(b) is Ok,
    ensures
        spec_encode(spec_decode(b)->Ok_0) == b.take(13),
{
    lemma_signed_record_bytes_round_trip(b.subrange(1, 13));
    assert(b.take(13) =~= seq![b[0]] + b.subrange(1, 13));
}


/// The id and value that the 12 payload bytes from `b[1]` on carry.
pub open spec fn payload_matches_unit(d: unit::Dto, b: Seq<u8>) -> bool {
    &&& d.id as int == (if le_number4(b, 1) < 0x8000_0000 { le_number4(b, 1) } else { le_number4(b, 1) - 0x1_0000_0000 })
    &&& d.value_bits as int == le_number8(b, 5)
}

pub open spec fn payload_matches_target(d: target::Dto, b: Seq<u8>) -> bool {
    &&& d.id as int == (if le_number4(b, 1) < 0x8000_0000 { le_number4(b, 1) } else { le_number4(b, 1) - 0x1_0000_0000 })
    &&& d.value_bits as int == le_number8(b, 5)
}

proof fn lemma_payload_numbers(b: Seq<u8>)
    requires
        b.len() >= 13,
    ensures
        i32_from_le(b.subrange(1, 13).subrange(0, 4)) as int == (if le_number4(b, 1) < 0x8000_0000 { le_number4(b, 1) } else { le_number4(b, 1) - 0x1_0000_0000 }),
        u64_from_le(b.subrange(1, 13).subrange(4, 12)) as int == le_number8(b, 5),
{
    let p = b.subrange(1, 13);
    lemma_i32_from_le_number(p.subrange(0, 4));
    lemma_u64_from_le_number(p.subrange(4, 12));
    assert(le_number4(p.subrange(0, 4), 0) == le_number4(b, 1));
    assert(le_number4(p.subrange(4, 12), 0) == le_number4(b, 5));
    assert(le_number4(p.subrange(4, 12), 4) == le_number4(b, 9));
}

/// Law: a datagram is 13 bytes; its first byte names the kind, `0x02` for
/// a unit and `0x01` for a target; the next four bytes are the id and the
/// last eight the bits of the value, each least significant byte first.
pub proof fn lemma_encode_layout(m: Message)
    ensures
        spec_encode(m).len() == 13,
        m is Unit ==> spec_encode(m)[0] == 0x02u8,
        m is Target ==> spec_encode(m)[0] == 0x01u8,
        m matches Message::Unit(d) ==> payload_matches_unit(d, spec_encode(m)),
        m matches Message::Target(d) ==> payload_matches_target(d, spec_encode(m)),
{
    let e = spec_encode(m);
    match m {
        Message::Unit(d) => {
            lemma_signed_record_round_trip(d.id, d.value_bits);
            assert(e.subrange(1, 13) =~= d.spec_bytes());
            lemma_payload_numbers(e);
        },
        Message::Target(d) => {
            lemma_signed_record_round_trip(d.id, d.value_bits);
            assert(e.subrange(1, 13) =~= d.spec_bytes());
            lemma_payload_numbers(e);
        },
    }
}

/// Law: the server reads a datagram of at least 13 bytes by its first byte:
/// `0x02` gives a unit and `0x01` a target, each carrying the id and value
/// bits of the next 12 bytes; any other first byte is an unknown id.
pub proof fn lemma_decode_layout(b: Seq<u8>)
    requires
        b.len() >= 13,
    ensures
        b[0] == 0x02 ==> (spec_decode(b) matches Ok(Message::Unit(d)) && payload_matches_unit(d, b)),
        b[0] == 0x01 ==> (spec_decode(b) matches Ok(Message::Target(d)) && payload_matches_target(d, b)),
        b[0] != 0x01 && b[0] != 0x02 ==> spec_decode(b) == Err::<Message, DecodeError>(
            DecodeError::Header(HeaderError::UnknownId(b[0])),
        ),
{
    lemma_payload_numbers(b);
}

/// Law: a datagram shorter than 13 bytes is refused: an empty one for its
/// missing id, one that opens with `0x02` or `0x01` for its short payload
/// of a unit or a target, any other for its unknown id.
pub proof fn lemma_decode_short(b: Seq<u8>)
    requires
        b.len() < 13,
    ensures
        b.len() == 0 ==> spec_decode(b) == Err::<Message, DecodeError>(DecodeError::Header(HeaderError::Empty)),
        b.len() > 0 && b[0] == 0x02 ==> spec_decode(b) == Err::<Message, DecodeError>(DecodeError::Payload(MsgId::Unit)),
        b.len() > 0 && b[0] == 0x01 ==> spec_decode(b) == Err::<Message, DecodeError>(DecodeError::Payload(MsgId::Target)),
        b.len() > 0 && b[0] != 0x01 && b[0] != 0x02 ==> spec_decode(b) == Err::<Message, DecodeError>(
            DecodeError::Header(HeaderError::UnknownId(b[0])),
        ),
{
}

} // verus!
