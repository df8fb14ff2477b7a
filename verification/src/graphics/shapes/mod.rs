//! Shapes, and batches that draw many instances of one shape.

pub mod shape_batch;
pub mod shape;
