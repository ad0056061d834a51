//! Spatial predicate pushdown and scan-adapter core for geometry-aware scans.
//!
//! - [`ordinate`]: coordinates as totally ordered integer keys of their
//!   IEEE-754 bit patterns, so that bounding-box arithmetic stays exact.
//! - [`bbox`]: bounding boxes, their union and intersection.
//! - [`coords`]: swapping the x and y ordinates of a coordinate buffer.
//! - [`extent`]: the extent aggregate's accumulator, with its merge laws.
//! - [`predicate`]: recognition of a spatial-intersects filter against a
//!   constant geometry.
//! - [`projection`]: column projections and their merge.
//! - [`flatgeobuf`]: the scan source of the indexed feature format: filter and
//!   projection pushdown, and the plan of each file open.
//! - [`geometry`]: names of geometry types.

pub mod bbox;
pub mod coords;
pub mod extent;
pub mod flatgeobuf;
pub mod geometry;
pub mod ordinate;
pub mod predicate;
pub mod projection;
