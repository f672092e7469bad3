//! Decision logic of a Monte Carlo sphere path tracer.
//!
//! The shading arithmetic works on floating-point values and lives with the
//! program; this library holds the parts that decide: which root of a sphere
//! intersection counts, which of many hits is the nearest, when a light path
//! stops, how a dielectric chooses between reflection and refraction, where
//! each pixel goes in the output image, and how the image is written out.
//!
//! Distances along a ray reach it as order keys (see `order`), integers that
//! compare as the floating-point distances do.

pub mod hit;
pub mod integrator;
pub mod material;
pub mod order;
pub mod ppm;
pub mod raster;

pub use hit::{choose_root, nearest_hit, Nearest, Root};
pub use integrator::{next_step, Event, Step, MAX_DEPTH};
pub use raster::RenderConfig;
pub use ppm::{encode_ppm, ppm_header, write_decimal, write_pixel, Rgb};
pub use material::{dielectric_bounce, Bounce};
pub use order::{bits_of_key, order_key};
