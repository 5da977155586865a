//! Rasterises a matrix of dark and light modules, such as the grid of a
//! two-dimensional barcode, into a pixel image.
//!
//! A [`render::Renderer`] takes the matrix, a margin of light modules and a
//! sizing policy, works out how many pixels a module gets on each axis, and
//! paints the result on a [`render::canvas::Canvas`]. The pixel layout is
//! chosen by the type parameter, one of the types of [`render::image`].

pub mod render;
pub mod types;
