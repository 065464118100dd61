//! Folds affine transforms of simple shapes (and of groups of such shapes)
//! into the shapes' own coordinates, wherever that is lossless.

pub mod geometry;
pub mod model;
pub mod validity;
pub mod document;
pub mod hoist;
pub mod bake;
pub mod transforms;

pub use transforms::apply_transform_to_shapes;
