//! Procedural terrain maps on a fixed grid.
//!
//! A map is built in stages: layered coherent noise gives two raw scalar
//! fields, a radial mask biases the rim of the map towards water, the
//! compositor turns the three into an elevation and a moisture field, and the
//! classifier assigns every cell a biome and a colour.
//!
//! All scalars are fixed-point integers counted in millionths, so every stage
//! is exact integer arithmetic.

pub mod biome;
pub mod compositor;
pub mod fixed;
pub mod gradient;
pub mod grid;
pub mod noise_map;
pub mod octaves;
pub mod raster;
pub mod seeds;
pub mod session;
