//! A small rendering layer for character grids.
//!
//! A [`Renderer`] is a surface of styled cells. A [`Rect`] names a region of a
//! surface and can be split along either axis. A [`View`] presents one region
//! of a surface as a surface of its own, with its origin at `(0, 0)`: it moves
//! every request by the region's offset and drops what falls outside.

pub mod coord;
pub mod rect;
pub mod renderer;
pub mod style;
pub mod view;

pub use coord::Coord;
pub use rect::Rect;
pub use renderer::{Renderer, Request};
pub use style::{ColorMap, Style};
pub use view::View;
