use vstd::prelude::*;

use crate::error::DecodeError;
use crate::header::{ScanContext, Timestamp};
use crate::moment::{
    moment_of_bit, scale_sample, spec_moment_of_bit, spec_scale, Moment, Scaled,
};
use crate::stream::{le16, ByteStream};

verus! {

/// The one size the per-ray angle sub-block may declare: three little-endian
/// 16-bit fields (size, azimuth, elevation).
pub const ANGLE_BLOCK_SIZE: u16 = 6;

/// Whether bit `i` of the moment mask is set.
pub open spec fn mask_bit(mask: u16, i: u16) -> bool {
    (mask >> i) & 1 == 1
}

/// Bit `i` of the moment mask as a count.
pub open spec fn bit1(mask: u16, i: u16) -> nat {
    if mask_bit(mask, i) {
        1nat
    } else {
        0nat
    }
}

/// How many of the mask bits below `i` are set.
pub open spec fn popcount_below(mask: u16, i: u16) -> nat
    decreases i,
{
    if i == 0 {
        0nat
    } else {
        popcount_below(mask, (i - 1) as u16) + bit1(mask, (i - 1) as u16)
    }
}

/// How many of the nine moment bits are set.
pub open spec fn popcount9(mask: u16) -> nat {
    popcount_below(mask, 9)
}

/// Counting set bits below a higher bound never counts fewer.
pub proof fn lemma_popcount_below_mono(mask: u16, i: u16, j: u16)
    requires
        i <= j,
    ensures
        popcount_below(mask, i) <= popcount_below(mask, j),
    decreases j,
{
    if i < j {
        lemma_popcount_below_mono(mask, i, (j - 1) as u16);
    }
}

/// Count the set moment bits.
pub fn count_moments(mask: u16) -> (k: u16)
    ensures
        k as nat == popcount9(mask),
        k <= 9,
{
    let mut k: u16 = 0;
    let mut i: u16 = 0;
    while i < 9
        invariant
            i <= 9,
            k as nat == popcount_below(mask, i),
            k <= i,
        decreases 9 - i,
    {
        if (mask >> i) & 1 == 1 {
            k = k + 1;
        }
        i = i + 1;
    }
    k
}

/// Bytes one ray block occupies: the angle sub-block (three 16-bit fields),
/// the observed-size field, and one 16-bit sample per gate per set mask bit.
pub open spec fn ray_len(ctx: ScanContext) -> nat {
    8 + 2 * (ctx.gate_count as nat) * popcount9(ctx.moment_mask)
}

/// The validation the decoder applies to a ray block's observed-size field.
pub open spec fn block_size_ok(observed: u16, mask: u16, g: u16) -> bool {
    &&& popcount9(mask) > 0
    &&& observed >= 2
    &&& ((observed - 2) / (popcount9(mask) as int)) / 2 == g
}

/// The `g` samples held in the first `2 * g` bytes of `bytes`, scaled under
/// moment `m`.
pub open spec fn spec_samples(bytes: Seq<u8>, m: Moment, g: int) -> Seq<Scaled> {
    Seq::new(g as nat, |j: int| spec_scale(le16(bytes, 2 * j) as u16, m))
}

/// The per-moment data of one ray, walking the mask bits from `i` upward
/// over `bytes`: each set bit consumes `2 * g` bytes, and every set bit but
/// the quality bit emits its scaled samples.
pub open spec fn spec_moment_data(bytes: Seq<u8>, mask: u16, g: int, i: u16) -> Seq<
    (Moment, Seq<Scaled>),
>
    decreases 9 - i,
{
    if i >= 9 {
        seq![]
    } else if mask_bit(mask, i) {
        let rest = spec_moment_data(
            bytes.subrange(2 * g, bytes.len() as int),
            mask,
            g,
            (i + 1) as u16,
        );
        if i == 8 {
            rest
        } else {
            seq![(spec_moment_of_bit(i), spec_samples(bytes, spec_moment_of_bit(i), g))] + rest
        }
    } else {
        spec_moment_data(bytes, mask, g, (i + 1) as u16)
    }
}

/// One decoded azimuthal sample. The azimuth is the decoded elevation field
/// turned into an azimuth by the format's fixed transform; the raw azimuth
/// field is read but not used. Moment keys are unique and stand in the fixed
/// bit order of the mask.
pub struct Ray {
    /// Azimuth angle in degrees, exact.
    pub azimuth: Scaled,
    /// The scan start time, copied from the header for every ray.
    pub time: Timestamp,
    /// Scaled samples per moment, `gate_count` each, in mask bit order.
    pub data: Vec<(Moment, Vec<Scaled>)>,
}

/// The mathematical reading of a ray: the same fields with the sample
/// vectors abstracted to sequences.
pub ghost struct RayModel {
    pub azimuth: Scaled,
    pub time: Timestamp,
    pub data: Seq<(Moment, Seq<Scaled>)>,
}

/// The mathematical reading of an in-progress moment table.
pub open spec fn data_model(v: Seq<(Moment, Vec<Scaled>)>) -> Seq<(Moment, Seq<Scaled>)> {
    Seq::new(v.len(), |i: int| (v[i].0, v[i].1@))
}

impl Ray {
    pub open spec fn model(self) -> RayModel {
        RayModel { azimuth: self.azimuth, time: self.time, data: data_model(self.data@) }
    }
}

/// The mathematical reading of a run of rays.
pub open spec fn rays_model(rays: Seq<Ray>) -> Seq<RayModel> {
    Seq::new(rays.len(), |i: int| rays[i].model())
}

/// The ray at the front of `rem`: its azimuth is `-elevation + 90` degrees
/// (the fields are hundredths of a degree, so the numerator over 100 is
/// `9000` minus the raw elevation), its time the scan start, its data the
/// mask-driven walk of the sample bytes.
pub open spec fn spec_ray(rem: Seq<u8>, ctx: ScanContext) -> RayModel {
    RayModel {
        azimuth: Scaled { num: (9000 - le16(rem, 4)) as i32, den: 100 },
        time: ctx.start_time,
        data: spec_moment_data(
            rem.subrange(8, rem.len() as int),
            ctx.moment_mask,
            ctx.gate_count as int,
            0,
        ),
    }
}

/// What decoding one ray block at the front of `rem` yields: the checks in
/// the order the decoder makes them, then the decoded ray.
pub open spec fn spec_ray_step(rem: Seq<u8>, ctx: ScanContext) -> Result<RayModel, DecodeError> {
    if rem.len() < 2 {
        Err(DecodeError::TruncatedInput)
    } else if le16(rem, 0) != ANGLE_BLOCK_SIZE {
        Err(DecodeError::Format)
    } else if rem.len() < 8 {
        Err(DecodeError::TruncatedInput)
    } else if !block_size_ok(le16(rem, 6) as u16, ctx.moment_mask, ctx.gate_count) {
        Err(DecodeError::Format)
    } else if rem.len() < ray_len(ctx) {
        Err(DecodeError::TruncatedInput)
    } else {
        Ok(spec_ray(rem, ctx))
    }
}

/// What decoding the whole remaining stream yields: rays until the stream is
/// empty, or the first failure. An empty stream is zero rays, not an error.
pub open spec fn spec_decode_rays(rem: Seq<u8>, ctx: ScanContext) -> Result<
    Seq<RayModel>,
    DecodeError,
>
    decreases rem.len(),
{
    if rem.len() == 0 {
        Ok(seq![])
    } else {
        match spec_ray_step(rem, ctx) {
            Err(e) => Err(e),
            Ok(ray) => match spec_decode_rays(
                rem.subrange(ray_len(ctx) as int, rem.len() as int),
                ctx,
            ) {
                Ok(rest) => Ok(seq![ray] + rest),
                Err(e) => Err(e),
            },
        }
    }
}

/// Read and scale `g` samples for moment `m`.
fn read_samples(s: &mut ByteStream, g: u16, m: Moment) -> (r: Vec<Scaled>)
    requires
        old(s).wf(),
        !(m is Quality),
        old(s).remaining().len() >= 2 * g,
    ensures
        final(s).wf(),
        r@ == spec_samples(old(s).remaining(), m, g as int),
        final(s).remaining() == old(s).remaining().subrange(
            2 * g,
            old(s).remaining().len() as int,
        ),
{
    let ghost rem0 = old(s).remaining();
    let mut r: Vec<Scaled> = Vec::new();
    let mut j: u16 = 0;
    while j < g
        invariant
            s.wf(),
            j <= g,
            rem0.len() >= 2 * g,
            !(m is Quality),
            s.remaining() == rem0.subrange(2 * j as int, rem0.len() as int),
            r@.len() == j,
            forall|t: int| 0 <= t < j ==> r@[t] == spec_scale(le16(rem0, 2 * t) as u16, m),
        decreases g - j,
    {
        let ghost prev = s.remaining();
        let v: u16 = s.read_u16_exact();
        let scaled = scale_sample(v, m);
        r.push(scaled);
        proof {
            assert(le16(prev, 0) == le16(rem0, 2 * j as int));
            assert(s.remaining() =~= rem0.subrange(2 * (j as int + 1), rem0.len() as int));
        }
        j = j + 1;
    }
    proof {
        assert(r@ =~= spec_samples(rem0, m, g as int));
    }
    r
}

/// Decode one ray block. On success exactly `ray_len` bytes are consumed; on
/// failure the step function names the same error.
pub fn decode_ray(s: &mut ByteStream, ctx: &ScanContext) -> (r: Result<Ray, DecodeError>)
    requires
        old(s).wf(),
    ensures
        final(s).wf(),
        match r {
            Ok(ray) => {
                &&& spec_ray_step(old(s).remaining(), *ctx) == Ok::<RayModel, DecodeError>(
                    ray.model(),
                )
                &&& old(s).remaining().len() >= ray_len(*ctx)
                &&& final(s).remaining() == old(s).remaining().subrange(
                    ray_len(*ctx) as int,
                    old(s).remaining().len() as int,
                )
            },
            Err(e) => spec_ray_step(old(s).remaining(), *ctx) == Err::<RayModel, DecodeError>(e),
        },
{
    let ghost rem = old(s).remaining();
    let size: u16 = match s.read_u16() {
        Ok(v) => v,
        Err(e) => { return Err(e) },
    };
    if size != ANGLE_BLOCK_SIZE {
        return Err(DecodeError::Format);
    }
    proof {
        assert(s.remaining() =~= rem.subrange(2, rem.len() as int));
    }
    // The raw azimuth field is read to keep the stream aligned but the
    // format's semantics for this scan mode take the azimuth from the
    // elevation field below.
    let _azimuth_field: u16 = match s.read_u16() {
        Ok(v) => v,
        Err(e) => { return Err(e) },
    };
    proof {
        assert(s.remaining() =~= rem.subrange(4, rem.len() as int));
    }
    let elevation_field: u16 = match s.read_u16() {
        Ok(v) => v,
        Err(e) => { return Err(e) },
    };
    proof {
        assert(s.remaining() =~= rem.subrange(6, rem.len() as int));
        assert(elevation_field as int == le16(rem, 4));
    }
    let observed: u16 = match s.read_u16() {
        Ok(v) => v,
        Err(e) => { return Err(e) },
    };
    proof {
        assert(s.remaining() =~= rem.subrange(8, rem.len() as int));
        assert(observed as int == le16(rem, 6));
    }
    let g: u16 = ctx.gate_count;
    let mask: u16 = ctx.moment_mask;
    let k: u16 = count_moments(mask);
    if !(k > 0 && observed >= 2 && (observed - 2) / k / 2 == g) {
        proof {
            assert(!block_size_ok(le16(rem, 6) as u16, mask, g));
        }
        return Err(DecodeError::Format);
    }
    proof {
        assert(2 * (g as int) * (k as int) <= 1179630) by (nonlinear_arith)
            requires
                g <= 65535,
                k <= 9,
        ;
    }
    let needed: u32 = 2 * (g as u32) * (k as u32);
    if s.remaining_len() < needed as usize {
        proof {
            assert(rem.len() < ray_len(*ctx));
        }
        return Err(DecodeError::TruncatedInput);
    }
    let ghost data_bytes = s.remaining();
    proof {
        assert(data_bytes.subrange(0, data_bytes.len() as int) =~= data_bytes);
        assert(popcount_below(mask, 0) == 0);
        assert(2 * (g as int) * (popcount_below(mask, 0) as int) == 0) by (nonlinear_arith)
            requires
                popcount_below(mask, 0) == 0,
        ;
    }
    let mut data: Vec<(Moment, Vec<Scaled>)> = Vec::new();
    proof {
        assert(data_model(data@) + spec_moment_data(data_bytes, mask, g as int, 0)
            =~~= spec_moment_data(data_bytes, mask, g as int, 0));
    }
    let mut i: u16 = 0;
    while i < 9
        invariant
            s.wf(),
            i <= 9,
            g == ctx.gate_count,
            mask == ctx.moment_mask,
            k as nat == popcount9(mask),
            data_bytes.len() >= 2 * (g as nat) * popcount9(mask),
            2 * (g as int) * (popcount_below(mask, i) as int) <= data_bytes.len(),
            s.remaining() == data_bytes.subrange(
                2 * (g as int) * (popcount_below(mask, i) as int),
                data_bytes.len() as int,
            ),
            spec_moment_data(data_bytes, mask, g as int, 0) == data_model(data@)
                + spec_moment_data(s.remaining(), mask, g as int, i),
        decreases 9 - i,
    {
        let ghost cur = s.remaining();
        if (mask >> i) & 1 == 1 {
            proof {
                lemma_popcount_below_mono(mask, (i + 1) as u16, 9);
                assert(popcount_below(mask, (i + 1) as u16) == popcount_below(mask, i) + 1);
                assert(cur.len() >= 2 * (g as int)) by (nonlinear_arith)
                    requires
                        cur.len() == data_bytes.len() - 2 * (g as int) * (popcount_below(
                            mask,
                            i,
                        ) as int),
                        data_bytes.len() >= 2 * (g as nat) * popcount9(mask),
                        popcount_below(mask, i) + 1 <= popcount9(mask),
                        g >= 0,
                ;
            }
            if i < 8 {
                let m: Moment = moment_of_bit(i);
                let ghost data_old = data@;
                let samples: Vec<Scaled> = read_samples(s, g, m);
                data.push((m, samples));
                proof {
                    assert(data_model(data@) =~~= data_model(data_old) + seq![(m, samples@)]);
                    assert(cur.subrange(2 * (g as int), cur.len() as int) == s.remaining());
                    assert(spec_moment_data(cur, mask, g as int, i) == seq![
                        (m, spec_samples(cur, m, g as int)),
                    ] + spec_moment_data(s.remaining(), mask, g as int, (i + 1) as u16));
                    assert(data_model(data_old) + spec_moment_data(cur, mask, g as int, i)
                        =~~= data_model(data@) + spec_moment_data(
                        s.remaining(),
                        mask,
                        g as int,
                        (i + 1) as u16,
                    ));
                }
            } else {
                let nbytes: usize = 2 * (g as usize);
                s.skip_exact(nbytes);
                proof {
                    assert(cur.subrange(2 * (g as int), cur.len() as int) == s.remaining());
                    assert(spec_moment_data(cur, mask, g as int, i) == spec_moment_data(
                        s.remaining(),
                        mask,
                        g as int,
                        (i + 1) as u16,
                    ));
                }
            }
            proof {
                assert(2 * (g as int) * (popcount_below(mask, (i + 1) as u16) as int) == 2 * (
                g as int) * (popcount_below(mask, i) as int) + 2 * (g as int))
                    by (nonlinear_arith)
                    requires
                        popcount_below(mask, (i + 1) as u16) == popcount_below(mask, i) + 1,
                ;
                assert(s.remaining() =~= data_bytes.subrange(
                    2 * (g as int) * (popcount_below(mask, (i + 1) as u16) as int),
                    data_bytes.len() as int,
                ));
            }
        } else {
            proof {
                assert(popcount_below(mask, (i + 1) as u16) == popcount_below(mask, i));
                assert(spec_moment_data(cur, mask, g as int, i) == spec_moment_data(
                    cur,
                    mask,
                    g as int,
                    (i + 1) as u16,
                ));
            }
        }
        i = i + 1;
    }
    let azimuth_num: i32 = 9000 - elevation_field as i32;
    let ray = Ray {
        azimuth: Scaled { num: azimuth_num, den: 100 },
        time: ctx.start_time,
        data,
    };
    proof {
        assert(spec_moment_data(s.remaining(), mask, g as int, 9) =~= Seq::<
            (Moment, Seq<Scaled>),
        >::empty());
        assert(data_model(ray.data@) =~~= spec_moment_data(data_bytes, mask, g as int, 0));
        assert(data_bytes =~= rem.subrange(8, rem.len() as int));
        assert(ray.model() == spec_ray(rem, *ctx));
        assert(2 * (g as int) * (popcount_below(mask, 9) as int) == 2 * (g as nat) * popcount9(
            mask,
        ));
        assert(s.remaining() =~= rem.subrange(ray_len(*ctx) as int, rem.len() as int));
    }
    Ok(ray)
}

/// Decode ray blocks until the stream is empty. End of stream is the only
/// termination signal; a stream that ends mid-block is a truncation.
pub fn decode_rays(s: &mut ByteStream, ctx: &ScanContext) -> (r: Result<Vec<Ray>, DecodeError>)
    requires
        old(s).wf(),
    ensures
        final(s).wf(),
        match r {
            Ok(rays) => spec_decode_rays(old(s).remaining(), *ctx) == Ok::<
                Seq<RayModel>,
                DecodeError,
            >(rays_model(rays@)),
            Err(e) => spec_decode_rays(old(s).remaining(), *ctx) == Err::<
                Seq<RayModel>,
                DecodeError,
            >(e),
        },
{
    let ghost rem0 = old(s).remaining();
    let mut rays: Vec<Ray> = Vec::new();
    proof {
        match spec_decode_rays(rem0, *ctx) {
            Ok(rest) => {
                assert(rays_model(rays@) + rest =~= rest);
            },
            Err(_) => {},
        }
    }
    loop
        invariant
            s.wf(),
            rem0 == old(s).remaining(),
            spec_decode_rays(rem0, *ctx) == (match spec_decode_rays(s.remaining(), *ctx) {
                Ok(rest) => Ok::<Seq<RayModel>, DecodeError>(rays_model(rays@) + rest),
                Err(e) => Err::<Seq<RayModel>, DecodeError>(e),
            }),
        decreases s.remaining().len(),
    {
        if s.is_empty() {
            proof {
                assert(spec_decode_rays(s.remaining(), *ctx) == Ok::<Seq<RayModel>, DecodeError>(
                    seq![],
                ));
                assert(rays_model(rays@) + seq![] =~= rays_model(rays@));
            }
            return Ok(rays);
        }
        let ghost cur = s.remaining();
        match decode_ray(s, ctx) {
            Ok(ray) => {
                proof {
                    assert(cur.len() != 0);
                    assert(s.remaining() == cur.subrange(ray_len(*ctx) as int, cur.len() as int));
                    assert(spec_decode_rays(cur, *ctx) == (match spec_decode_rays(
                        s.remaining(),
                        *ctx,
                    ) {
                        Ok(rest) => Ok::<Seq<RayModel>, DecodeError>(seq![ray.model()] + rest),
                        Err(e) => Err::<Seq<RayModel>, DecodeError>(e),
                    }));
                    assert(rays_model(rays@.push(ray)) =~~= rays_model(rays@) + seq![
                        ray.model(),
                    ]);
                    match spec_decode_rays(s.remaining(), *ctx) {
                        Ok(rest) => {
                            assert(rays_model(rays@) + (seq![ray.model()] + rest) =~~= rays_model(
                                rays@.push(ray),
                            ) + rest);
                        },
                        Err(_) => {},
                    }
                }
                rays.push(ray);
            },
            Err(e) => {
                proof {
                    assert(cur.len() != 0);
                    assert(spec_decode_rays(cur, *ctx) == Err::<Seq<RayModel>, DecodeError>(e));
                }
                return Err(e);
            },
        }
    }
}

} // verus!
