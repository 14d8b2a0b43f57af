use vstd::prelude::*;

use crate::error::DecodeError;
use crate::header::{decode_header, spec_header, ScanContext, HEADER_SIZE};
use crate::moment::Moment;
use crate::params::{build_params, spec_params, ParamDescription};
use crate::ray::{decode_rays, rays_model, spec_decode_rays, Ray, RayModel};
use crate::stream::{le16, ByteStream};

verus! {

/// One elevation scan: site and scan parameters copied from the header, and
/// the decoded rays in stream order (ray order encodes azimuthal scan
/// order). Rays are only ever appended while decoding.
pub struct Sweep {
    /// Site latitude, degrees times 100000.
    pub latitude_deg_1e5: i32,
    /// Site longitude, degrees times 100000.
    pub longitude_deg_1e5: i32,
    /// Elevation angle, hundredths of a degree; this decoder emits zero.
    pub elevation_deg_1e2: i16,
    /// Nyquist velocity, meters per second times 10.
    pub nyquist_ms_1e1: u16,
    pub rays: Vec<Ray>,
}

/// Everything one file decodes to: the scan context, the parameter table it
/// induces, and one sweep. No partly decoded scan is ever handed out.
pub struct DecodedScan {
    pub context: ScanContext,
    pub params: Vec<(Moment, ParamDescription)>,
    pub sweep: Sweep,
}

/// What decoding a whole byte stream yields: the scan context, the
/// parameter table, and the rays of the remainder; or the first failure, in
/// the order the decoder meets them.
pub open spec fn spec_decode_file(bytes: Seq<u8>) -> Result<
    (ScanContext, Seq<(Moment, ParamDescription)>, Seq<RayModel>),
    DecodeError,
> {
    if bytes.len() < 2 {
        Err(DecodeError::TruncatedInput)
    } else if le16(bytes, 0) != HEADER_SIZE {
        Err(DecodeError::Format)
    } else if bytes.len() < HEADER_SIZE {
        Err(DecodeError::TruncatedInput)
    } else {
        let ctx = spec_header(bytes);
        match spec_decode_rays(bytes.subrange(HEADER_SIZE as int, bytes.len() as int), ctx) {
            Ok(rays) => Ok((ctx, spec_params(ctx.moment_mask, ctx.gate_resolution_m, 0), rays)),
            Err(e) => Err(e),
        }
    }
}

/// Decode one file held in memory: the fixed-size header, then ray blocks
/// until the stream is empty. Any failure aborts the whole decode; no
/// partially built sweep is returned.
pub fn read_file(bytes: Vec<u8>) -> (r: Result<DecodedScan, DecodeError>)
    ensures
        match r {
            Ok(scan) => {
                &&& spec_decode_file(bytes@) == Ok::<
                    (ScanContext, Seq<(Moment, ParamDescription)>, Seq<RayModel>),
                    DecodeError,
                >((scan.context, scan.params@, rays_model(scan.sweep.rays@)))
                &&& scan.sweep.latitude_deg_1e5 == scan.context.latitude_deg_1e5
                &&& scan.sweep.longitude_deg_1e5 == scan.context.longitude_deg_1e5
                &&& scan.sweep.elevation_deg_1e2 == 0
                &&& scan.sweep.nyquist_ms_1e1 == scan.context.nyquist_ms_1e1
            },
            Err(e) => spec_decode_file(bytes@) == Err::<
                (ScanContext, Seq<(Moment, ParamDescription)>, Seq<RayModel>),
                DecodeError,
            >(e),
        },
{
    let mut s = ByteStream::new(bytes);
    let ctx: ScanContext = match decode_header(&mut s) {
        Ok(c) => c,
        Err(e) => { return Err(e) },
    };
    let params: Vec<(Moment, ParamDescription)> = build_params(
        ctx.moment_mask,
        ctx.gate_resolution_m,
    );
    let rays: Vec<Ray> = match decode_rays(&mut s, &ctx) {
        Ok(r) => r,
        Err(e) => { return Err(e) },
    };
    let sweep = Sweep {
        latitude_deg_1e5: ctx.latitude_deg_1e5,
        longitude_deg_1e5: ctx.longitude_deg_1e5,
        elevation_deg_1e2: 0,
        nyquist_ms_1e1: ctx.nyquist_ms_1e1,
        rays,
    };
    Ok(DecodedScan { context: ctx, params, sweep })
}

} // verus!
