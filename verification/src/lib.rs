//! Packing of cuboid items into containers.
//!
//! The crate assigns rigid cuboid items to containers taken from a catalogue of container
//! templates, subject to weight limits, freedom from overlap and static stability, and
//! reports where each item went, which items found no place and why, and how well
//! balanced and supported each container is.
//!
//! Every quantity is a fixed-point number with six decimal places, held as a whole number
//! of millionths (see [`fixed`]). The contracts of the public functions are stated over
//! mathematical models of the data: sequences, integers and the views of the types.

use vstd::prelude::*;

pub mod api;
pub mod config;
pub mod fixed;
pub mod geometry;
pub mod model;
pub mod optimizer;
pub mod text;
pub mod types;
pub mod update;

verus! {

} // verus!
