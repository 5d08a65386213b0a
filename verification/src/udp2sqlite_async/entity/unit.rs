//! The row of the `units` table, which is also the payload sent over UDP.
use vstd::prelude::*;
use crate::wire::{unsigned_record_le, u32_from_le, u64_from_le, has_bytes, put_u32_le, put_u64_le, read_unsigned_record};

verus! {

/// A unit: an unsigned id and the 64 bits of an IEEE-754 double (the value
/// as `f64::to_bits` gives it).
pub struct Model {
    pub id: u32,
    pub value_bits: u64,
}

impl Model {
    /// The 12 bytes of this payload: the id, then the value, little-endian.
    pub open spec fn spec_bytes(self) -> Seq<u8> {
        unsigned_record_le(self.id, self.value_bits)
    }

    /// The payload that 12 bytes hold.
    pub open spec fn spec_from_bytes(b: Seq<u8>) -> Model {
        Model { id: u32_from_le(b.subrange(0, 4)), value_bits: u64_from_le(b.subrange(4, 12)) }
    }

    /// Appends the 12 bytes of this payload.
    pub fn write_le(&self, out: &mut Vec<u8>)
        ensures
            final(out)@ == old(out)@ + self.spec_bytes(),
    {
        put_u32_le(out, self.id);
        put_u64_le(out, self.value_bits);
        assert(final(out)@ =~= old(out)@ + self.spec_bytes());
    }

    /// The payload at `data[pos..pos + 12]`; `None` when fewer bytes are left.
    pub fn read_le(data: &[u8], pos: usize) -> (r: Option<Model>)
        ensures
            r == (if has_bytes(data@, pos as int, 12) {
                Some(Model::spec_from_bytes(data@.subrange(pos as int, pos + 12)))
            } else {
                None
            }),
    {
        match read_unsigned_record(data, pos) {
            Some((id, value_bits)) => {
                assert(data@.subrange(pos as int, pos + 12).subrange(0, 4) =~= data@.subrange(
                    pos as int,
                    pos + 4,
                ));
                assert(data@.subrange(pos as int, pos + 12).subrange(4, 12) =~= data@.subrange(
                    pos + 4,
                    pos + 12,
                ));
                Some(Model { id, value_bits })
            },
            None => None,
        }
    }
}

} // verus!
