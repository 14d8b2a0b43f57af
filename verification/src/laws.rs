use vstd::prelude::*;

use crate::decode::spec_decode_file;
use crate::error::DecodeError;
use crate::header::{spec_header, ScanContext, HEADER_SIZE};
use crate::moment::{bit_of_moment, spec_moment_of_bit, Moment, Scaled};
use crate::params::ParamDescription;
use crate::ray::{
    block_size_ok, mask_bit, popcount9, ray_len, spec_decode_rays, spec_moment_data, spec_ray,
    spec_ray_step, spec_samples, RayModel, ANGLE_BLOCK_SIZE,
};
use crate::stream::le16;

verus! {

/// A decode succeeds only when the header-size field reads the fixed
/// constant, and any stream long enough to show another value fails with a
/// format error.
pub proof fn lemma_header_size(bytes: Seq<u8>)
    ensures
        spec_decode_file(bytes) is Ok ==> bytes.len() >= 2 && le16(bytes, 0) == HEADER_SIZE,
        bytes.len() >= 2 && le16(bytes, 0) != HEADER_SIZE ==> spec_decode_file(bytes) == Err::<
            (ScanContext, Seq<(Moment, ParamDescription)>, Seq<RayModel>),
            DecodeError,
        >(DecodeError::Format),
{
}

/// Every decoded ray's azimuth is the negated elevation field plus 90
/// degrees — numerator `9000` minus the raw elevation over denominator 100 —
/// whatever the raw azimuth field at offset 2 holds.
pub proof fn lemma_ray_azimuth(rem: Seq<u8>, ctx: ScanContext)
    requires
        spec_ray_step(rem, ctx) is Ok,
    ensures
        spec_ray_step(rem, ctx) == Ok::<RayModel, DecodeError>(spec_ray(rem, ctx)),
        spec_ray(rem, ctx).azimuth == (Scaled { num: (9000 - le16(rem, 4)) as i32, den: 100 }),
{
}

/// The observed-size validation holds exactly on the narrow band around
/// `2 + 2 * gate_count * set_bits` that the two integer divisions admit; in
/// particular the exact block size always passes and any value below it
/// never does.
pub proof fn lemma_block_size(observed: u16, mask: u16, g: u16)
    requires
        popcount9(mask) > 0,
    ensures
        block_size_ok(observed, mask, g) <==> 2 + 2 * (g as int) * (popcount9(mask) as int)
            <= observed < 2 + 2 * (g as int) * (popcount9(mask) as int) + 2 * (popcount9(
            mask,
        ) as int),
{
    let k = popcount9(mask) as int;
    let d = observed - 2;
    if observed >= 2 {
        assert(((d / k) / 2 == g) <==> (2 * (g as int) * k <= d < 2 * (g as int) * k + 2 * k))
            by (nonlinear_arith)
            requires
                k >= 1,
                d >= 0,
                g >= 0,
        ;
    }
}

/// Each entry of a mask-driven moment walk holds exactly `g` samples, and
/// its keys sit on strictly increasing mask bits below the quality bit: keys
/// are unique, in fixed bit order, and never the quality channel.
pub proof fn lemma_moment_data_entries(bytes: Seq<u8>, mask: u16, g: int, i: u16)
    requires
        0 <= g,
    ensures
        forall|p: int|
            0 <= p < spec_moment_data(bytes, mask, g, i).len() ==> (#[trigger] spec_moment_data(
                bytes,
                mask,
                g,
                i,
            )[p]).1.len() == g,
        forall|p: int|
            0 <= p < spec_moment_data(bytes, mask, g, i).len() ==> i <= bit_of_moment(
                (#[trigger] spec_moment_data(bytes, mask, g, i)[p]).0,
            ) < 8,
        forall|p: int, q: int|
            0 <= p < q < spec_moment_data(bytes, mask, g, i).len() ==> bit_of_moment(
                (#[trigger] spec_moment_data(bytes, mask, g, i)[p]).0,
            ) < bit_of_moment((#[trigger] spec_moment_data(bytes, mask, g, i)[q]).0),
    decreases 9 - i,
{
    if i < 9 {
        if mask_bit(mask, i) {
            let tail = bytes.subrange(2 * g, bytes.len() as int);
            lemma_moment_data_entries(tail, mask, g, (i + 1) as u16);
            if i == 8 {
                assert forall|p: int|
                    0 <= p < spec_moment_data(bytes, mask, g, i).len() implies (
                #[trigger] spec_moment_data(bytes, mask, g, i)[p]) == spec_moment_data(
                    tail,
                    mask,
                    g,
                    (i + 1) as u16,
                )[p] by {}
            } else {
                let rest = spec_moment_data(tail, mask, g, (i + 1) as u16);
                let whole = spec_moment_data(bytes, mask, g, i);
                let head = (spec_moment_of_bit(i), spec_samples(bytes, spec_moment_of_bit(i), g));
                assert(whole == seq![head] + rest);
                assert(head.1.len() == g);
                assert(bit_of_moment(head.0) == i);
                assert forall|p: int|
                    0 <= p < spec_moment_data(bytes, mask, g, i).len() implies (
                #[trigger] spec_moment_data(bytes, mask, g, i)[p]).1.len() == g by {
                    if p > 0 {
                        assert(whole[p] == rest[p - 1]);
                    }
                }
                assert forall|p: int|
                    0 <= p < spec_moment_data(bytes, mask, g, i).len() implies i <= bit_of_moment(
                    (#[trigger] spec_moment_data(bytes, mask, g, i)[p]).0,
                ) < 8 by {
                    if p > 0 {
                        assert(whole[p] == rest[p - 1]);
                    }
                }
                assert forall|p: int, q: int|
                    0 <= p < q < spec_moment_data(bytes, mask, g, i).len() implies bit_of_moment(
                    (#[trigger] spec_moment_data(bytes, mask, g, i)[p]).0,
                ) < bit_of_moment((#[trigger] spec_moment_data(bytes, mask, g, i)[q]).0) by {
                    assert(whole[q] == rest[q - 1]);
                    if p > 0 {
                        assert(whole[p] == rest[p - 1]);
                    }
                }
            }
        } else {
            lemma_moment_data_entries(bytes, mask, g, (i + 1) as u16);
            assert forall|p: int|
                0 <= p < spec_moment_data(bytes, mask, g, i).len() implies (
            #[trigger] spec_moment_data(bytes, mask, g, i)[p]) == spec_moment_data(
                bytes,
                mask,
                g,
                (i + 1) as u16,
            )[p] by {}
        }
    }
}

/// A ray model is well formed for gate count `g` when each of its data
/// entries holds exactly `g` samples, no entry stands under the quality
/// channel, and no two entries share a moment key.
pub open spec fn ray_model_wf(m: RayModel, g: u16) -> bool {
    &&& forall|p: int| 0 <= p < m.data.len() ==> (#[trigger] m.data[p]).1.len() == g
    &&& forall|p: int| 0 <= p < m.data.len() ==> (#[trigger] m.data[p]).0 != Moment::Quality
    &&& forall|p: int, q: int|
        0 <= p < q < m.data.len() ==> (#[trigger] m.data[p]).0 != (#[trigger] m.data[q]).0
}

/// Every successfully decoded ray carries exactly `gate_count` samples per
/// moment, under unique moment keys that are never the quality channel.
pub proof fn lemma_ray_data_shape(rem: Seq<u8>, ctx: ScanContext)
    requires
        spec_ray_step(rem, ctx) is Ok,
    ensures
        ray_model_wf(spec_ray(rem, ctx), ctx.gate_count),
{
    lemma_moment_data_entries(
        rem.subrange(8, rem.len() as int),
        ctx.moment_mask,
        ctx.gate_count as int,
        0,
    );
}

/// Every ray of a successfully decoded ray stream is well formed for the
/// header's gate count.
pub proof fn lemma_decoded_rays_wf(rem: Seq<u8>, ctx: ScanContext)
    requires
        spec_decode_rays(rem, ctx) is Ok,
    ensures
        forall|r: int|
            0 <= r < spec_decode_rays(rem, ctx)->Ok_0.len() ==> ray_model_wf(
                #[trigger] spec_decode_rays(rem, ctx)->Ok_0[r],
                ctx.gate_count,
            ),
    decreases rem.len(),
{
    if rem.len() != 0 {
        let head = spec_ray(rem, ctx);
        lemma_ray_data_shape(rem, ctx);
        let tail_rem = rem.subrange(ray_len(ctx) as int, rem.len() as int);
        lemma_decoded_rays_wf(tail_rem, ctx);
        let rays = spec_decode_rays(rem, ctx)->Ok_0;
        let rest = spec_decode_rays(tail_rem, ctx)->Ok_0;
        assert(rays == seq![head] + rest);
        assert forall|r: int| 0 <= r < rays.len() implies ray_model_wf(
            #[trigger] rays[r],
            ctx.gate_count,
        ) by {
            if r == 0 {
                assert(rays[r] == head);
            } else {
                assert(rays[r] == rest[r - 1]);
            }
        }
    }
}

/// Every ray of a successfully decoded file is well formed for the file's
/// gate count: the sweep's shape follows from the header alone.
pub proof fn lemma_decoded_file_wf(bytes: Seq<u8>)
    requires
        spec_decode_file(bytes) is Ok,
    ensures
        forall|r: int|
            0 <= r < spec_decode_file(bytes)->Ok_0.2.len() ==> ray_model_wf(
                #[trigger] spec_decode_file(bytes)->Ok_0.2[r],
                spec_decode_file(bytes)->Ok_0.0.gate_count,
            ),
{
    lemma_decoded_rays_wf(
        bytes.subrange(HEADER_SIZE as int, bytes.len() as int),
        spec_header(bytes),
    );
}

/// An empty remainder after the header decodes to zero rays, without error.
pub proof fn lemma_empty_stream(ctx: ScanContext)
    ensures
        spec_decode_rays(Seq::empty(), ctx) == Ok::<Seq<RayModel>, DecodeError>(
            Seq::<RayModel>::empty(),
        ),
{
    assert(seq![] =~= Seq::<RayModel>::empty());
}

/// A nonempty remainder whose first ray block fails to decode fails the
/// whole ray stream with that same error: no ray is produced for a partial
/// or malformed block.
pub proof fn lemma_ray_error_propagates(rem: Seq<u8>, ctx: ScanContext, e: DecodeError)
    requires
        rem.len() > 0,
        spec_ray_step(rem, ctx) == Err::<RayModel, DecodeError>(e),
    ensures
        spec_decode_rays(rem, ctx) == Err::<Seq<RayModel>, DecodeError>(e),
{
}

/// A stream that ends mid-ray — its angle sub-block and size check in
/// order, but fewer bytes than the moment mask and gate count demand — is a
/// truncation, and the whole ray stream fails with it.
pub proof fn lemma_truncated_mid_ray(rem: Seq<u8>, ctx: ScanContext)
    requires
        8 <= rem.len() < ray_len(ctx),
        le16(rem, 0) == ANGLE_BLOCK_SIZE,
        block_size_ok(le16(rem, 6) as u16, ctx.moment_mask, ctx.gate_count),
    ensures
        spec_decode_rays(rem, ctx) == Err::<Seq<RayModel>, DecodeError>(
            DecodeError::TruncatedInput,
        ),
{
}

} // verus!
