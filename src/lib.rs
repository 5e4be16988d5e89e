//! Geometry core of a sky viewer: grid-line spacing and placement, adaptive
//! subdivision of grid lines, and the hierarchical coverage of the view.
//!
//! Angles are integers counted in microarcseconds.

pub mod angle;
pub mod coverage;
pub mod cuts;
pub mod grid;
pub mod hips_config;
pub mod shader;
pub mod subdivision;
