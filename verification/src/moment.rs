use vstd::prelude::*;

use crate::error::DecodeError;

verus! {

/// One measured radar quantity, one sample per range gate. The header's
/// moment mask binds each moment to a fixed bit: bit 0 = `R`, 1 = `Ref`,
/// 2 = `Vel`, 3 = `Zdr`, 4 = `Kdp`, 5 = `Phi`, 6 = `Rho`, 7 = `Sw`,
/// 8 = `Quality`. The quality channel is read to keep the stream aligned
/// but never emitted, and it has no physical scaling.
#[derive(Clone, Copy, Debug, PartialEq, Eq, Hash, Structural)]
pub enum Moment {
    R,
    Ref,
    Vel,
    Zdr,
    Kdp,
    Phi,
    Rho,
    Sw,
    Quality,
}

/// An exact physical value, `num / den` in the moment's unit. Every scaling
/// law of the format is rational with a small fixed denominator, so samples
/// are kept exact; a consumer divides once where it needs an approximate
/// floating-point reading.
#[derive(Clone, Copy, Debug, PartialEq, Eq, Structural)]
pub struct Scaled {
    pub num: i32,
    pub den: u32,
}

/// The moment bound to bit `i` of the moment mask.
pub open spec fn spec_moment_of_bit(i: u16) -> Moment {
    if i == 0 {
        Moment::R
    } else if i == 1 {
        Moment::Ref
    } else if i == 2 {
        Moment::Vel
    } else if i == 3 {
        Moment::Zdr
    } else if i == 4 {
        Moment::Kdp
    } else if i == 5 {
        Moment::Phi
    } else if i == 6 {
        Moment::Rho
    } else if i == 7 {
        Moment::Sw
    } else {
        Moment::Quality
    }
}

/// The moment bound to bit `i` of the moment mask.
pub fn moment_of_bit(i: u16) -> (m: Moment)
    ensures
        m == spec_moment_of_bit(i),
{
    if i == 0 {
        Moment::R
    } else if i == 1 {
        Moment::Ref
    } else if i == 2 {
        Moment::Vel
    } else if i == 3 {
        Moment::Zdr
    } else if i == 4 {
        Moment::Kdp
    } else if i == 5 {
        Moment::Phi
    } else if i == 6 {
        Moment::Rho
    } else if i == 7 {
        Moment::Sw
    } else {
        Moment::Quality
    }
}

impl Moment {
    /// The name the format binds to each moment; the quality channel has
    /// none and is never emitted under a name.
    pub fn name(&self) -> (r: &'static str)
        ensures
            self is R ==> r@ == "R"@,
            self is Ref ==> r@ == "REF"@,
            self is Vel ==> r@ == "VEL"@,
            self is Zdr ==> r@ == "ZDR"@,
            self is Kdp ==> r@ == "KDP"@,
            self is Phi ==> r@ == "PHI"@,
            self is Rho ==> r@ == "RHO"@,
            self is Sw ==> r@ == "SW"@,
            self is Quality ==> r@ == ""@,
    {
        match self {
            Moment::R => "R",
            Moment::Ref => "REF",
            Moment::Vel => "VEL",
            Moment::Zdr => "ZDR",
            Moment::Kdp => "KDP",
            Moment::Phi => "PHI",
            Moment::Rho => "RHO",
            Moment::Sw => "SW",
            Moment::Quality => "",
        }
    }
}

/// The mask bit a moment is bound to; the inverse of `spec_moment_of_bit`
/// on the nine moments.
pub open spec fn bit_of_moment(m: Moment) -> u16 {
    match m {
        Moment::R => 0,
        Moment::Ref => 1,
        Moment::Vel => 2,
        Moment::Zdr => 3,
        Moment::Kdp => 4,
        Moment::Phi => 5,
        Moment::Rho => 6,
        Moment::Sw => 7,
        Moment::Quality => 8,
    }
}

/// Numerator of the scaling law for raw sample `v` under moment `m`.
pub open spec fn scale_num(v: u16, m: Moment) -> int {
    match m {
        Moment::R | Moment::Ref | Moment::Vel | Moment::Zdr | Moment::Kdp => v - 32768,
        Moment::Phi => 360 * (v - 32768),
        Moment::Rho => 2 * (v - 1),
        Moment::Sw => v - 1,
        Moment::Quality => 0,
    }
}

/// Denominator of the scaling law under moment `m`.
pub open spec fn scale_den(m: Moment) -> int {
    match m {
        Moment::R | Moment::Ref | Moment::Vel | Moment::Zdr | Moment::Kdp => 100,
        Moment::Phi => 65535,
        Moment::Rho => 65534,
        Moment::Sw => 100,
        Moment::Quality => 1,
    }
}

/// The physical value of raw sample `v` under moment `m`, as an exact
/// rational.
pub open spec fn spec_scale(v: u16, m: Moment) -> Scaled {
    Scaled { num: scale_num(v, m) as i32, den: scale_den(m) as u32 }
}

/// The scaling law for a moment that has one, applied to one raw sample.
pub fn scale_sample(v: u16, m: Moment) -> (r: Scaled)
    requires
        !(m is Quality),
    ensures
        r == spec_scale(v, m),
{
    match m {
        Moment::R | Moment::Ref | Moment::Vel | Moment::Zdr | Moment::Kdp => Scaled {
            num: v as i32 - 32768,
            den: 100,
        },
        Moment::Phi => Scaled { num: 360 * (v as i32 - 32768), den: 65535 },
        Moment::Rho => Scaled { num: 2 * (v as i32 - 1), den: 65534 },
        Moment::Sw => Scaled { num: v as i32 - 1, den: 100 },
        Moment::Quality => Scaled { num: 0, den: 1 },
    }
}

/// The per-moment scaling law: a pure function of the raw unsigned 16-bit
/// sample and the moment alone. The quality channel lies outside the fixed
/// scaling table and is reported as unsupported.
pub fn read_data(v: u16, moment: Moment) -> (r: Result<Scaled, DecodeError>)
    ensures
        !(moment is Quality) ==> r == Ok::<Scaled, DecodeError>(spec_scale(v, moment)),
        moment is Quality ==> r == Err::<Scaled, DecodeError>(DecodeError::UnsupportedMoment),
{
    match moment {
        Moment::Quality => Err(DecodeError::UnsupportedMoment),
        _ => Ok(scale_sample(v, moment)),
    }
}

} // verus!
