//! Renders a parsed digital-notebook document model into the session-file
//! format of an open-source annotation application: nested outline groups are
//! flattened, stroke geometry is delta-decoded into absolute coordinates,
//! packed colors are unpacked into hex strings, page canvases are sized from
//! the rendered content, and the result is wrapped into a compressed
//! single-file container.
//!
//! All geometry is carried in signed fixed-point "milli" units (one unit of
//! the source model is 1000 milli), so the whole coordinate pipeline is
//! ordinary integer arithmetic.

pub mod fixed;
pub mod config;
pub mod model;
pub mod text;
pub mod geom;
pub mod markup;
pub mod size;
pub mod render;
pub mod assemble;
pub mod laws;
pub mod bridge;
