//! Memory-layout facts for composite types, shown on hover: size, alignment,
//! per-field offsets and niches, laid out in declaration order and rendered
//! under a configurable policy.
pub mod builder;
pub mod model;
pub mod placement;
pub mod reconcile;
pub mod render;
pub mod text;
pub mod hover;
pub mod samples;
