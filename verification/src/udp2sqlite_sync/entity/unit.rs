//! The payload stored in the `units` table.
use vstd::prelude::*;
use crate::wire::{signed_record_le, i32_from_le, u64_from_le, has_bytes, put_i32_le, put_u64_le, read_signed_record};

verus! {

/// A row sent over UDP: a signed id and the 64 bits of an IEEE-754 double
/// (the value as `f64::to_bits` gives it).
pub struct Dto {
    pub id: i32,
    pub value_bits: u64,
}

impl Dto {
    /// The 12 bytes of this payload: the id, then the value, little-endian.
    pub open spec fn spec_bytes(self) -> Seq<u8> {
        signed_record_le(self.id, self.value_bits)
    }

    /// The payload that 12 bytes hold.
    pub open spec fn spec_from_bytes(b: Seq<u8>) -> Dto {
        Dto { id: i32_from_le(b.subrange(0, 4)), value_bits: u64_from_le(b.subrange(4, 12)) }
    }

    /// Appends the 12 bytes of this payload.
    pub fn write_le(&self, out: &mut Vec<u8>)
        ensures
            final(out)@ == old(out)@ + self.spec_bytes(),
    {
        put_i32_le(out, self.id);
        put_u64_le(out, self.value_bits);
        assert(final(out)@ =~= old(out)@ + self.spec_bytes());
    }

    /// The payload at `data[pos..pos + 12]`; `None` when fewer bytes are left.
    pub fn read_le(data: &[u8], pos: usize) -> (r: Option<Dto>)
        ensures
            r == (if has_bytes(data@, pos as int, 12) {
                Some(Dto::spec_from_bytes(data@.subrange(pos as int, pos + 12)))
            } else {
                None
            }),
    {
        match read_signed_record(data, pos) {
            Some((id, value_bits)) => {
                assert(data@.subrange(pos as int, pos + 12).subrange(0, 4) =~= data@.subrange(
                    pos as int,
                    pos + 4,
                ));
                assert(data@.subrange(pos as int, pos + 12).subrange(4, 12) =~= data@.subrange(
                    pos + 4,
                    pos + 12,
                ));
                Some(Dto { id, value_bits })
            },
            None => None,
        }
    }
}

} // verus!
