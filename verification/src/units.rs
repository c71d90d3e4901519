use vstd::prelude::*;

verus! {

/// One whole unit of the fixed-point scale used for occluder visibility,
/// light intensity and colour channels: a visibility of `UNIT` is fully
/// opaque, a colour channel of `UNIT` is fully saturated.
pub const UNIT: i64 = 1000;

/// Bound on world-space coordinates (after transforms are applied). Keeping
/// every coordinate within this range lets all downstream geometry run in
/// exact 128-bit arithmetic with no overflow.
pub const COORD_MAX: i64 = 0x100_0000_0000;

/// Bound on a light's intensity, in `UNIT` units (so one million whole units).
pub const INTENSITY_MAX: i64 = 1_000_000_000;

/// Largest supported raster dimension, in pixels, along either axis.
pub const MAX_DIM: u32 = 32768;

/// Bytes per pixel of the output raster (RGBA, one byte per channel).
pub const BYTES_PER_PIXEL: u32 = 4;

/// `UNIT` cubed: the scale of one light's raw contribution to one channel
/// (colour times intensity times transmitted fraction, each in `UNIT` units).
pub const UNIT_CUBED: u64 = 1_000_000_000;

/// Largest raw contribution of one light to one channel:
/// `UNIT * INTENSITY_MAX * UNIT`.
pub const TERM_MAX: u64 = 1_000_000_000_000_000;

} // verus!
