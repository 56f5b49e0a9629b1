//! Deterministic identicons: a 20-byte hash is decoded into shapes,
//! rotations and colours, and rendered as a symmetric 4x4 grid of cells.
//!
//! All arithmetic is on whole numbers. A configuration holds its fractions
//! in millionths, and hues in millionths of a degree; colours are computed
//! on exact fractions and rounded once, to the nearest byte. The canvas is an
//! image of the `ril` crate, which fills the polygons, circles and
//! rectangles that the cells are made of.

pub mod canvas;
pub mod color;
pub mod config;
pub mod hash;
pub mod hsl;
pub mod layout;
pub mod palette;
pub mod render;
pub mod renderer;
pub mod roles;
pub mod shapes;
pub mod transform;

pub use canvas::Image;
pub use color::{Rgb, Rgba};
pub use config::{Config, ConfigBuilder, ConfigBuilderError, LightnessRange};
pub use hsl::{corrected_hsl_to_rgb, hsl_to_rgb, Ratio};
pub use render::{generate_identicon, render_identicon};
