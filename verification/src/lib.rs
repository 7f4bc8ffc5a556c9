//! Splitting raster images into a rectangular grid of tiles.
//!
//! The crate plans the grid (`weights`, `axis`, `grid`), cuts the tiles out
//! of a decoded image (`cropper`), names the files they are written to
//! (`naming`), validates a request before any file is touched (`request`) and
//! decides, step by step, what happens to each source file and each tile
//! (`pipeline`).

pub mod axis;
pub mod cropper;
pub mod grid;
pub mod naming;
pub mod pipeline;
pub mod request;
pub mod weights;
