use vstd::prelude::*;

use crate::moment::{moment_of_bit, spec_moment_of_bit, Moment};
use crate::ray::mask_bit;

verus! {

/// Gate geometry of one moment present in the file. This format has no
/// first-cell offset, so that field is always zero.
#[derive(Clone, Copy, Debug, PartialEq, Eq, Structural)]
pub struct ParamDescription {
    /// Meters from the instrument to the first gate; fixed at zero here.
    pub meters_to_first_cell: u16,
    /// Meters between consecutive gates.
    pub meters_between_cells: u16,
}

/// The parameter table for the mask bits from `i` upward: one entry per set
/// bit except the quality bit, in mask bit order.
pub open spec fn spec_params(mask: u16, res: u16, i: u16) -> Seq<(Moment, ParamDescription)>
    decreases 9 - i,
{
    if i >= 9 {
        seq![]
    } else {
        let rest = spec_params(mask, res, (i + 1) as u16);
        if mask_bit(mask, i) && i != 8 {
            seq![
                (
                    spec_moment_of_bit(i),
                    ParamDescription { meters_to_first_cell: 0, meters_between_cells: res },
                ),
            ] + rest
        } else {
            rest
        }
    }
}

/// Build the parameter table from the moment mask, one description per
/// moment the file carries, keyed in fixed bit order with the quality bit
/// left out. Built once, before any ray is decoded.
pub fn build_params(mask: u16, gate_resolution_m: u16) -> (r: Vec<(Moment, ParamDescription)>)
    ensures
        r@ == spec_params(mask, gate_resolution_m, 0),
{
    let mut r: Vec<(Moment, ParamDescription)> = Vec::new();
    let mut i: u16 = 0;
    proof {
        assert(r@ + spec_params(mask, gate_resolution_m, 0) =~= spec_params(
            mask,
            gate_resolution_m,
            0,
        ));
    }
    while i < 9
        invariant
            i <= 9,
            spec_params(mask, gate_resolution_m, 0) == r@ + spec_params(
                mask,
                gate_resolution_m,
                i,
            ),
        decreases 9 - i,
    {
        if (mask >> i) & 1 == 1 && i != 8 {
            let ghost r_old = r@;
            let m: Moment = moment_of_bit(i);
            r.push(
                (m, ParamDescription { meters_to_first_cell: 0, meters_between_cells: gate_resolution_m }),
            );
            proof {
                assert(r_old + spec_params(mask, gate_resolution_m, i) =~= r@ + spec_params(
                    mask,
                    gate_resolution_m,
                    (i + 1) as u16,
                ));
            }
        }
        i = i + 1;
    }
    proof {
        assert(r@ + spec_params(mask, gate_resolution_m, 9) =~= r@);
    }
    r
}

} // verus!
