//! Verified core of a point-cloud conversion pipeline.
//!
//! An archive holds independent scans of 3D points.  Each point carries a
//! position, an optional intensity and an optional color, each paired with
//! a validity flag.  The library transforms points into the target schema,
//! tracks which points of a scan were written, decides which scans emit a
//! station point (the centroid of their written points), derives the
//! per-scan identifiers and output names, and lays out the summary
//! document.  Reading the archive, writing the artifacts and the
//! floating-point accumulation itself are the callers' side; the values
//! cross the boundary as plain integers and bit patterns.

pub mod archive;
pub mod float_bits;
pub mod guid;
pub mod point;
pub mod scan;
pub mod summary;

pub use crate::float_bits::clamp;
pub use crate::float_bits::scale_to_u16;
