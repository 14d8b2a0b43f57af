//! Decoder for a fixed-header, bitmask-driven weather-radar volume format:
//! a 156-byte little-endian header selects which moments each ray carries,
//! and the rest of the stream is a run of ray blocks, each validated against
//! the header's gate count and moment mask and scaled to physical values.

pub mod decode;
pub mod error;
pub mod header;
pub mod laws;
pub mod moment;
pub mod params;
pub mod ray;
pub mod stream;
