use vstd::prelude::*;

use crate::error::DecodeError;
use crate::stream::{le16, le32, signed32, ByteStream};

verus! {

/// The one header length this format variant carries; any other value means
/// a different, unsupported variant.
pub const HEADER_SIZE: u16 = 156;

/// A calendar timestamp as the header stores it: a year and five one-byte
/// fields, no time zone applied.
#[derive(Clone, Copy, Debug, PartialEq, Eq, Structural)]
pub struct Timestamp {
    pub year: u16,
    pub month: u8,
    pub day: u8,
    pub hour: u8,
    pub minute: u8,
    pub second: u8,
}

/// Everything the ray decoder needs from the header, fixed for the whole
/// file. Fixed-point fields keep the stored integer and name the scale:
/// latitude and longitude are degrees times 100000, the nyquist velocity is
/// meters per second times 10.
#[derive(Clone, Copy, Debug, PartialEq, Eq, Structural)]
pub struct ScanContext {
    /// Nominal scan start, reused verbatim for every ray.
    pub start_time: Timestamp,
    /// Site latitude, degrees times 100000.
    pub latitude_deg_1e5: i32,
    /// Site longitude, degrees times 100000.
    pub longitude_deg_1e5: i32,
    /// Nyquist velocity, meters per second times 10.
    pub nyquist_ms_1e1: u16,
    /// Range gates per ray, per moment.
    pub gate_count: u16,
    /// Meters between consecutive gates.
    pub gate_resolution_m: u16,
    /// Which moments every ray carries, one bit per moment in fixed order.
    pub moment_mask: u16,
}

/// The scan context held in a header of at least `HEADER_SIZE` bytes `h`
/// (offsets count from the header-size field itself).
pub open spec fn spec_header(h: Seq<u8>) -> ScanContext {
    ScanContext {
        start_time: Timestamp {
            year: le16(h, 4) as u16,
            month: h[6],
            day: h[7],
            hour: h[8],
            minute: h[9],
            second: h[10],
        },
        latitude_deg_1e5: signed32(le32(h, 26)) as i32,
        longitude_deg_1e5: signed32(le32(h, 30)) as i32,
        nyquist_ms_1e1: le16(h, 80) as u16,
        gate_count: le16(h, 102) as u16,
        gate_resolution_m: le16(h, 104) as u16,
        moment_mask: le16(h, 136) as u16,
    }
}

/// Read two little-endian bytes of `b` at `i`.
fn get_u16(b: &Vec<u8>, i: usize) -> (v: u16)
    requires
        i + 2 <= b@.len(),
    ensures
        v as int == le16(b@, i as int),
{
    // Pinning the length to a machine word lets the index sums below stay
    // within `usize`.
    let len: usize = b.len();
    b[i] as u16 + (b[i + 1] as u16) * 256
}

/// Read four little-endian bytes of `b` at `i` as a signed value.
fn get_i32(b: &Vec<u8>, i: usize) -> (v: i32)
    requires
        i + 4 <= b@.len(),
    ensures
        v as int == signed32(le32(b@, i as int)),
{
    let len: usize = b.len();
    let u: u32 = b[i] as u32 + (b[i + 1] as u32) * 256 + (b[i + 2] as u32) * 65536 + (b[i + 3]
        as u32) * 16777216;
    if u >= 0x8000_0000 {
        ((u as i64) - 0x1_0000_0000i64) as i32
    } else {
        u as i32
    }
}

/// Consume exactly the fixed-size header and return the scan context.
///
/// Fails with `Format` exactly when the header-size field reads a value
/// other than `HEADER_SIZE`, and with `TruncatedInput` exactly when the
/// stream ends before that field or, the field being right, before the
/// header's end. On success exactly `HEADER_SIZE` bytes are consumed.
pub fn decode_header(s: &mut ByteStream) -> (r: Result<ScanContext, DecodeError>)
    requires
        old(s).wf(),
    ensures
        final(s).wf(),
        match r {
            Ok(ctx) => {
                &&& old(s).remaining().len() >= HEADER_SIZE
                &&& le16(old(s).remaining(), 0) == HEADER_SIZE
                &&& ctx == spec_header(old(s).remaining())
                &&& final(s).remaining() == old(s).remaining().subrange(
                    HEADER_SIZE as int,
                    old(s).remaining().len() as int,
                )
            },
            Err(e) => {
                &&& (e is Format <==> old(s).remaining().len() >= 2 && le16(old(s).remaining(), 0)
                    != HEADER_SIZE)
                &&& (e is TruncatedInput <==> old(s).remaining().len() < 2 || (le16(
                    old(s).remaining(),
                    0,
                ) == HEADER_SIZE && old(s).remaining().len() < HEADER_SIZE))
                &&& !(e is UnsupportedMoment)
            },
        },
{
    let ghost h = old(s).remaining();
    let size: u16 = match s.read_u16() {
        Ok(v) => v,
        Err(e) => { return Err(e) },
    };
    if size != HEADER_SIZE {
        return Err(DecodeError::Format);
    }
    let ghost rem2 = s.remaining();
    // The rest of the header: offsets below are offsets in the full header
    // minus the 2 bytes of the size field already consumed.
    let body: Vec<u8> = match s.take((HEADER_SIZE - 2) as usize) {
        Ok(v) => v,
        Err(e) => { return Err(e) },
    };
    proof {
        assert(body@.len() == 154);
        assert forall|j: int| 0 <= j < 154 implies body@[j] == h[j + 2] by {
            assert(body@[j] == rem2.subrange(0, 154)[j]);
            assert(rem2[j] == h.subrange(2, h.len() as int)[j]);
        }
    }
    // Between the fields the decode needs sit fields it consumes but
    // discards: after the start time, a padding byte, the end time with its
    // padding, the time zone and two instrument identifiers; after the
    // longitude, the altitude and the RF, antenna, power, noise, pulse and
    // PRF parameters; after the nyquist field, sampling and pulse widths,
    // the observation mode, the rotation speed and the ray count; after the
    // gate resolution, further scan and rainfall parameters; after the
    // moment mask, the signal flag, the clutter-reference timestamp and the
    // reserved tail.
    let ctx = ScanContext {
        start_time: Timestamp {
            year: get_u16(&body, 2),
            month: body[4],
            day: body[5],
            hour: body[6],
            minute: body[7],
            second: body[8],
        },
        latitude_deg_1e5: get_i32(&body, 24),
        longitude_deg_1e5: get_i32(&body, 28),
        nyquist_ms_1e1: get_u16(&body, 78),
        gate_count: get_u16(&body, 100),
        gate_resolution_m: get_u16(&body, 102),
        moment_mask: get_u16(&body, 134),
    };
    proof {
        assert(s.remaining() =~= h.subrange(HEADER_SIZE as int, h.len() as int));
    }
    Ok(ctx)
}

} // verus!
