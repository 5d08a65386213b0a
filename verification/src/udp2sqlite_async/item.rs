//! The row of the `cake` table, which is also a payload in the binary format.
use vstd::prelude::*;
use crate::wire::{le_number4, le_number8, lemma_u32_from_le_number, lemma_u64_from_le_number, lemma_unsigned_record_round_trip, unsigned_record_le, u32_from_le, u64_from_le, has_bytes, put_u32_le, put_u64_le, read_unsigned_record};

verus! {

/// A cake row: an unsigned id and the 64 bits of an IEEE-754 double (the value
/// as `f64::to_bits` gives it).
pub struct Model {
    pub id: u32,
    pub value_bits: u64,
}

impl Model {
    /// The 12 bytes of this payload: the id, then the value, little-endian.
    pub open spec fn spec_bytes(self) -> Seq<u8> {
        unsigned_record_le(self.id, self.value_bits)
    }

    /// The payload that 12 bytes hold.
    pub open spec fn spec_from_bytes(b: Seq<u8>) -> Model {
        Model { id: u32_from_le(b.subrange(0, 4)), value_bits: u64_from_le(b.subrange(4, 12)) }
    }

    /// Appends the 12 bytes of this payload.
    pub fn write_le(&self, out: &mut Vec<u8>)
        ensures
            final(out)@ == old(out)@ + self.spec_bytes(),
    {
        put_u32_le(out, self.id);
        put_u64_le(out, self.value_bits);
        assert(final(out)@ =~= old(out)@ + self.spec_bytes());
    }

    /// The payload at `data[pos..pos + 12]`; `None` when fewer bytes are left.
    pub fn read_le(data: &[u8], pos: usize) -> (r: Option<Model>)
        ensures
            r == (if has_bytes(data@, pos as int, 12) {
                Some(Model::spec_from_bytes(data@.subrange(pos as int, pos + 12)))
            } else {
                None
            }),
    {
        match read_unsigned_record(data, pos) {
            Some((id, value_bits)) => {
                assert(data@.subrange(pos as int, pos + 12).subrange(0, 4) =~= data@.subrange(
                    pos as int,
                    pos + 4,
                ));
                assert(data@.subrange(pos as int, pos + 12).subrange(4, 12) =~= data@.subrange(
                    pos + 4,
                    pos + 12,
                ));
                Some(Model { id, value_bits })
            },
            None => None,
        }
    }
}

/// Law: a cake row is 12 bytes, its id in the first four and the bits of
/// its value in the last eight, least significant byte first; 12 bytes read
/// back as the row they denote.
pub proof fn lemma_cake_layout(m: Model, b: Seq<u8>)
    ensures
        m.spec_bytes().len() == 12,
        le_number4(m.spec_bytes(), 0) == m.id as int,
        le_number8(m.spec_bytes(), 4) == m.value_bits as int,
        b.len() == 12 ==> Model::spec_from_bytes(b).id as int == le_number4(b, 0)
            && Model::spec_from_bytes(b).value_bits as int == le_number8(b, 4),
{
    let e = m.spec_bytes();
    lemma_unsigned_record_round_trip(m.id, m.value_bits);
    lemma_u32_from_le_number(e.subrange(0, 4));
    lemma_u64_from_le_number(e.subrange(4, 12));
    assert(le_number4(e.subrange(0, 4), 0) == le_number4(e, 0));
    assert(le_number4(e.subrange(4, 12), 0) == le_number4(e, 4));
    assert(le_number4(e.subrange(4, 12), 4) == le_number4(e, 8));
    if b.len() == 12 {
        lemma_u32_from_le_number(b.subrange(0, 4));
        lemma_u64_from_le_number(b.subrange(4, 12));
        assert(le_number4(b.subrange(0, 4), 0) == le_number4(b, 0));
        assert(le_number4(b.subrange(4, 12), 0) == le_number4(b, 4));
        assert(le_number4(b.subrange(4, 12), 4) == le_number4(b, 8));
    }
}

} // verus!
