//! A 2D lightmap compositor: point lights and opaque or semi-opaque occluder
//! segments, viewed through a camera window, are turned into a per-pixel
//! illumination raster.
//!
//! All geometry is carried in exact fixed-point integer coordinates, so every
//! step of the pipeline — occluder extraction, viewport mapping, shadow-volume
//! construction, per-light compositing and the final raster — has a precise
//! mathematical meaning that is verified. A GPU backend can execute the frame
//! plan this crate produces; the reference rasterizer here defines what the
//! output must be.

pub mod point;
pub mod units;
pub mod ext;
pub mod transform;
pub mod types;
pub mod viewport;
pub mod shadow;
pub mod raster;
pub mod compositor;
pub mod laws;
