//! The parameter grid that the simulation is run over.
use vstd::prelude::*;

verus! {

/// The solar panel sizes tried (m2): none, then powers of two up to 1024.
pub open spec fn size_options() -> Seq<u32> {
    seq![0u32, 1, 2, 4, 8, 16, 32, 64, 128, 256, 512, 1024]
}

/// The panel sizes, in m2, that a simulation row is made for.
pub fn solar_output_options() -> (r: Vec<u32>)
    ensures
        r@ == size_options(),
{
    let r = vec![0u32, 1, 2, 4, 8, 16, 32, 64, 128, 256, 512, 1024];
    assert(r@ =~= size_options());
    r
}

/// The battery capacities, in kWh, that a simulation row is made for.
pub fn battery_capacity_options() -> (r: Vec<u32>)
    ensures
        r@ == size_options(),
{
    let r = vec![0u32, 1, 2, 4, 8, 16, 32, 64, 128, 256, 512, 1024];
    assert(r@ =~= size_options());
    r
}

/// Law: the options start at zero, each after the first is twice the one
/// before, so they are strictly increasing and no combination repeats.
pub proof fn lemma_size_options_doubling()
    ensures
        size_options()[0] == 0,
        size_options()[1] == 1,
        forall|i: int| 1 < i < size_options().len() ==> #[trigger] size_options()[i] == 2 * size_options()[i - 1],
        forall|i: int, j: int| 0 <= i < j < size_options().len() ==> size_options()[i] < size_options()[j],
{
    let s = size_options();
    assert forall|i: int| 1 < i < s.len() implies #[trigger] s[i] == 2 * s[i - 1] by {
        assert(s[2] == 2 && s[3] == 4 && s[4] == 8 && s[5] == 16 && s[6] == 32 && s[7] == 64);
        assert(s[8] == 128 && s[9] == 256 && s[10] == 512 && s[11] == 1024);
    }
    assert forall|i: int, j: int| 0 <= i < j < s.len() implies s[i] < s[j] by {
        assert(s[0] == 0 && s[1] == 1 && s[2] == 2 && s[3] == 4 && s[4] == 8 && s[5] == 16);
        assert(s[6] == 32 && s[7] == 64 && s[8] == 128 && s[9] == 256 && s[10] == 512 && s[11] == 1024);
    }
}

} // verus!
