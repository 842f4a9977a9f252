//! Colourised, edge-aware ASCII art from raster images.
//!
//! A picture is made in four steps: the pixels of an image are turned into a
//! grey field, the Sobel operator finds the gradient of that field, each cell
//! gets a stroke where the gradient marks an edge and a glyph of the
//! brightness ramp elsewhere, and the grid of coloured glyphs is written out
//! as text for a terminal.
//!
//! All of it is computed in whole numbers.  A channel is a byte that stands
//! for `byte / 255`, a grey level counts in units of `1 / 2_550_000`, and every
//! other quantity is an exact fraction.

pub mod argparse;
pub mod ascii_image;
pub mod color;
pub mod error;
pub mod glyph;
pub mod glyph_grid;
pub mod gradient;
pub mod image_processing;
pub mod numbers;
pub mod print_image;
pub mod ratio;

pub use ascii_image::{Arguments, AsciImage, RGBColor};
pub use error::AsciiError;
pub use print_image::RenderMode;
pub use ratio::Ratio;
