use rhix::decode::read_file;
use rhix::error::DecodeError;
use rhix::moment::{read_data, Moment, Scaled};

fn as_f64(s: Scaled) -> f64 {
    s.num as f64 / s.den as f64
}

fn put_u16(buf: &mut Vec<u8>, at: usize, v: u16) {
    let b = v.to_le_bytes();
    buf[at] = b[0];
    buf[at + 1] = b[1];
}

fn put_i32(buf: &mut Vec<u8>, at: usize, v: i32) {
    let b = v.to_le_bytes();
    buf[at] = b[0];
    buf[at + 1] = b[1];
    buf[at + 2] = b[2];
    buf[at + 3] = b[3];
}

/// A valid 156-byte header with the given gate count, gate resolution and
/// moment mask; other fields hold fixed plausible values.
fn build_header(gate_count: u16, gate_res: u16, mask: u16) -> Vec<u8> {
    let mut h = vec![0u8; 156];
    put_u16(&mut h, 0, 156);
    put_u16(&mut h, 2, 1); // version
    put_u16(&mut h, 4, 2021); // start time
    h[6] = 7;
    h[7] = 15;
    h[8] = 12;
    h[9] = 34;
    h[10] = 56;
    put_i32(&mut h, 26, 3512345); // latitude: 35.12345 degrees
    put_i32(&mut h, 30, -13954321); // longitude: -139.54321 degrees
    put_u16(&mut h, 80, 320); // nyquist: 32.0 m/s
    put_u16(&mut h, 102, gate_count);
    put_u16(&mut h, 104, gate_res);
    put_u16(&mut h, 136, mask);
    h
}

fn push_u16(buf: &mut Vec<u8>, v: u16) {
    buf.extend_from_slice(&v.to_le_bytes());
}

#[test]
fn header_size_must_match() {
    let mut h = build_header(2, 100, 2);
    put_u16(&mut h, 0, 155);
    assert_eq!(read_file(h).err(), Some(DecodeError::Format));

    let mut h2 = build_header(2, 100, 2);
    put_u16(&mut h2, 0, 157);
    assert_eq!(read_file(h2).err(), Some(DecodeError::Format));
}

#[test]
fn header_too_short_is_truncation() {
    assert_eq!(read_file(Vec::new()).err(), Some(DecodeError::TruncatedInput));
    assert_eq!(read_file(vec![156u8]).err(), Some(DecodeError::TruncatedInput));
    let h = build_header(2, 100, 2);
    let short = h[..100].to_vec();
    assert_eq!(read_file(short).err(), Some(DecodeError::TruncatedInput));
}

#[test]
fn header_fields_are_decoded() {
    let scan = read_file(build_header(7, 250, 0b0_0000_0110)).unwrap();
    let ctx = scan.context;
    assert_eq!(ctx.start_time.year, 2021);
    assert_eq!(ctx.start_time.month, 7);
    assert_eq!(ctx.start_time.day, 15);
    assert_eq!(ctx.start_time.hour, 12);
    assert_eq!(ctx.start_time.minute, 34);
    assert_eq!(ctx.start_time.second, 56);
    assert_eq!(ctx.latitude_deg_1e5, 3512345);
    assert_eq!(ctx.longitude_deg_1e5, -13954321);
    assert!((ctx.latitude_deg_1e5 as f64 / 1e5 - 35.12345).abs() < 1e-9);
    assert!((ctx.longitude_deg_1e5 as f64 / 1e5 + 139.54321).abs() < 1e-9);
    assert_eq!(ctx.nyquist_ms_1e1, 320);
    assert_eq!(ctx.gate_count, 7);
    assert_eq!(ctx.gate_resolution_m, 250);
    assert_eq!(ctx.moment_mask, 6);
    assert_eq!(scan.sweep.latitude_deg_1e5, 3512345);
    assert_eq!(scan.sweep.longitude_deg_1e5, -13954321);
    assert_eq!(scan.sweep.elevation_deg_1e2, 0);
    assert_eq!(scan.sweep.nyquist_ms_1e1, 320);
}

#[test]
fn reflectivity_scaling_round_trip() {
    let mid = read_data(32768, Moment::Ref).unwrap();
    assert_eq!(as_f64(mid), 0.0);
    let low = read_data(0, Moment::Ref).unwrap();
    assert_eq!(as_f64(low), -327.68);
    let high = read_data(65535, Moment::Ref).unwrap();
    assert_eq!(as_f64(high), 327.67);
}

#[test]
fn shared_linear_scaling_family() {
    for m in [Moment::R, Moment::Ref, Moment::Vel, Moment::Zdr, Moment::Kdp] {
        let s = read_data(32868, m).unwrap();
        assert_eq!(s.num, 100);
        assert_eq!(s.den, 100);
        assert_eq!(as_f64(s), 1.0);
    }
}

#[test]
fn phi_scaling() {
    let mid = read_data(32768, Moment::Phi).unwrap();
    assert_eq!(as_f64(mid), 0.0);
    let high = read_data(65535, Moment::Phi).unwrap();
    let expected = 360.0 * (65535.0 - 32768.0) / 65535.0;
    assert!((as_f64(high) - expected).abs() < 1e-9);
}

#[test]
fn rho_scaling() {
    let low = read_data(1, Moment::Rho).unwrap();
    assert_eq!(as_f64(low), 0.0);
    let high = read_data(65535, Moment::Rho).unwrap();
    assert_eq!(as_f64(high), 2.0 * 65534.0 / 65534.0);
    assert_eq!(as_f64(high), 2.0);
}

#[test]
fn sw_scaling() {
    let low = read_data(1, Moment::Sw).unwrap();
    assert_eq!(as_f64(low), 0.0);
    let s = read_data(151, Moment::Sw).unwrap();
    assert_eq!(as_f64(s), 1.5);
}

#[test]
fn quality_channel_has_no_scaling() {
    assert_eq!(read_data(123, Moment::Quality), Err(DecodeError::UnsupportedMoment));
}

#[test]
fn empty_remainder_means_zero_rays() {
    let scan = read_file(build_header(2, 100, 2)).unwrap();
    assert_eq!(scan.sweep.rays.len(), 0);
}

#[test]
fn wrong_angle_block_size_is_format_error() {
    let mut f = build_header(2, 100, 2);
    push_u16(&mut f, 8); // angle block size must be 6
    push_u16(&mut f, 0);
    push_u16(&mut f, 9000);
    push_u16(&mut f, 6);
    push_u16(&mut f, 32768);
    push_u16(&mut f, 32868);
    assert_eq!(read_file(f).err(), Some(DecodeError::Format));
}

#[test]
fn wrong_observed_block_size_is_format_error() {
    // One moment (REF), two gates: the observed size must read 2 + 2*2*1.
    let mut f = build_header(2, 100, 2);
    push_u16(&mut f, 6);
    push_u16(&mut f, 0);
    push_u16(&mut f, 9000);
    push_u16(&mut f, 12); // deliberately wrong
    push_u16(&mut f, 32768);
    push_u16(&mut f, 32868);
    assert_eq!(read_file(f).err(), Some(DecodeError::Format));
}

#[test]
fn truncated_mid_ray_is_truncation_and_yields_no_ray() {
    let mut f = build_header(2, 100, 2);
    push_u16(&mut f, 6);
    push_u16(&mut f, 0);
    push_u16(&mut f, 9000);
    push_u16(&mut f, 6);
    push_u16(&mut f, 32768); // second sample missing
    let r = read_file(f);
    assert_eq!(r.err(), Some(DecodeError::TruncatedInput));
}

#[test]
fn minimal_file_end_to_end() {
    // Valid header, gate_count 2, mask selecting only REF, then one ray:
    // angle size 6, azimuth 0, elevation 9000 (90.00 degrees), observed
    // size 2 + 2*2*1 = 6, samples 32768 and 32868.
    let mut f = build_header(2, 100, 2);
    push_u16(&mut f, 6);
    push_u16(&mut f, 0);
    push_u16(&mut f, 9000);
    push_u16(&mut f, 6);
    push_u16(&mut f, 32768);
    push_u16(&mut f, 32868);
    let scan = read_file(f).unwrap();
    assert_eq!(scan.sweep.rays.len(), 1);
    let ray = &scan.sweep.rays[0];
    assert_eq!(as_f64(ray.azimuth), -90.0 + 90.0);
    assert_eq!(as_f64(ray.azimuth), 0.0);
    assert_eq!(ray.time.year, 2021);
    assert_eq!(ray.data.len(), 1);
    assert_eq!(ray.data[0].0, Moment::Ref);
    let samples: Vec<f64> = ray.data[0].1.iter().map(|s| as_f64(*s)).collect();
    assert_eq!(samples, vec![0.0, 1.0]);

    assert_eq!(scan.params.len(), 1);
    assert_eq!(scan.params[0].0, Moment::Ref);
    assert_eq!(scan.params[0].1.meters_between_cells, 100);
    assert_eq!(scan.params[0].1.meters_to_first_cell, 0);
}

#[test]
fn azimuth_ignores_raw_azimuth_field() {
    let mut f1 = build_header(1, 100, 2);
    push_u16(&mut f1, 6);
    push_u16(&mut f1, 4500); // raw azimuth, unused
    push_u16(&mut f1, 3000);
    push_u16(&mut f1, 4);
    push_u16(&mut f1, 32768);
    let mut f2 = build_header(1, 100, 2);
    push_u16(&mut f2, 6);
    push_u16(&mut f2, 27000); // different raw azimuth
    push_u16(&mut f2, 3000);
    push_u16(&mut f2, 4);
    push_u16(&mut f2, 32768);
    let r1 = read_file(f1).unwrap();
    let r2 = read_file(f2).unwrap();
    let a1 = as_f64(r1.sweep.rays[0].azimuth);
    let a2 = as_f64(r2.sweep.rays[0].azimuth);
    assert_eq!(a1, a2);
    assert_eq!(a1, -30.0 + 90.0);
}

#[test]
fn quality_samples_are_read_but_discarded() {
    // Mask selects VEL (bit 2) and quality (bit 8): the ray block carries
    // both, the decoded ray only VEL.
    let mask: u16 = (1 << 2) | (1 << 8);
    let mut f = build_header(1, 100, mask);
    push_u16(&mut f, 6);
    push_u16(&mut f, 0);
    push_u16(&mut f, 0);
    push_u16(&mut f, 2 + 2 * 1 * 2);
    push_u16(&mut f, 32768); // VEL sample
    push_u16(&mut f, 7); // quality sample, discarded
    let scan = read_file(f).unwrap();
    assert_eq!(scan.sweep.rays.len(), 1);
    assert_eq!(scan.sweep.rays[0].data.len(), 1);
    assert_eq!(scan.sweep.rays[0].data[0].0, Moment::Vel);
    assert_eq!(scan.params.len(), 1);
    assert_eq!(scan.params[0].0, Moment::Vel);
}

#[test]
fn moments_keep_mask_bit_order() {
    // R, ZDR and SW set: bits 0, 3 and 7.
    let mask: u16 = 1 | (1 << 3) | (1 << 7);
    let mut f = build_header(1, 50, mask);
    push_u16(&mut f, 6);
    push_u16(&mut f, 0);
    push_u16(&mut f, 4500);
    push_u16(&mut f, 2 + 2 * 1 * 3);
    push_u16(&mut f, 32768); // R
    push_u16(&mut f, 32968); // ZDR
    push_u16(&mut f, 201); // SW
    let scan = read_file(f).unwrap();
    let ray = &scan.sweep.rays[0];
    let keys: Vec<Moment> = ray.data.iter().map(|p| p.0).collect();
    assert_eq!(keys, vec![Moment::R, Moment::Zdr, Moment::Sw]);
    assert_eq!(as_f64(ray.data[0].1[0]), 0.0);
    assert_eq!(as_f64(ray.data[1].1[0]), 2.0);
    assert_eq!(as_f64(ray.data[2].1[0]), 2.0);
    let params: Vec<Moment> = scan.params.iter().map(|p| p.0).collect();
    assert_eq!(params, vec![Moment::R, Moment::Zdr, Moment::Sw]);
    assert_eq!(as_f64(ray.azimuth), -45.0 + 90.0);
}

#[test]
fn several_rays_decode_in_stream_order() {
    let mut f = build_header(1, 100, 2);
    for elev in [9000u16, 6000, 3000] {
        push_u16(&mut f, 6);
        push_u16(&mut f, 0);
        push_u16(&mut f, elev);
        push_u16(&mut f, 4);
        push_u16(&mut f, 32768);
    }
    let scan = read_file(f).unwrap();
    let azimuths: Vec<f64> =
        scan.sweep.rays.iter().map(|r| as_f64(r.azimuth)).collect();
    assert_eq!(azimuths, vec![0.0, 30.0, 60.0]);
}

#[test]
fn empty_moment_mask_makes_ray_blocks_invalid() {
    // With no mask bit set no observed size can validate, whatever it reads.
    let mut f = build_header(2, 100, 0);
    push_u16(&mut f, 6);
    push_u16(&mut f, 0);
    push_u16(&mut f, 0);
    push_u16(&mut f, 2);
    assert_eq!(read_file(f).err(), Some(DecodeError::Format));
}

#[test]
fn zero_gate_count_yields_empty_sample_runs() {
    // With no gates a ray block is just its angle sub-block and an observed
    // size whose quotient reads zero.
    let mut f = build_header(0, 100, 2);
    push_u16(&mut f, 6);
    push_u16(&mut f, 0);
    push_u16(&mut f, 1000);
    push_u16(&mut f, 2);
    let scan = read_file(f).unwrap();
    assert_eq!(scan.sweep.rays.len(), 1);
    let ray = &scan.sweep.rays[0];
    assert_eq!(as_f64(ray.azimuth), 80.0);
    assert_eq!(ray.data.len(), 1);
    assert_eq!(ray.data[0].0, Moment::Ref);
    assert!(ray.data[0].1.is_empty());
}

#[test]
fn moment_names_follow_the_format() {
    assert_eq!(Moment::R.name(), "R");
    assert_eq!(Moment::Ref.name(), "REF");
    assert_eq!(Moment::Vel.name(), "VEL");
    assert_eq!(Moment::Zdr.name(), "ZDR");
    assert_eq!(Moment::Kdp.name(), "KDP");
    assert_eq!(Moment::Phi.name(), "PHI");
    assert_eq!(Moment::Rho.name(), "RHO");
    assert_eq!(Moment::Sw.name(), "SW");
    assert_eq!(Moment::Quality.name(), "");
}

#[test]
fn error_descriptions_name_the_failure() {
    assert!(DecodeError::TruncatedInput.describe().contains("ended"));
    assert!(DecodeError::Format.describe().contains("validation"));
    assert!(DecodeError::UnsupportedMoment.describe().contains("moment"));
}
