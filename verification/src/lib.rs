//! Scene import planning and draw-command generation for glTF-style assets.
//!
//! The crate turns an immutable scene description into a description of the
//! GPU resources it needs, a one-shot queue of upload tasks, and per-frame
//! draw command sequences. It performs no GPU work itself: the caller
//! allocates what [`model::Model`] plans, records the copies that
//! [`model::Model::initialize`] hands out, and records the draws that
//! [`model::Model::draw_scene`] produces. Matrices and material factors stay
//! with the caller and are referred to by node and material index.
//!
//! Every function carries a contract, and Verus checks every function
//! against its contract except three. Those three call into outside crates
//! and their contracts are taken on trust: `DataType::size` and
//! `Dimensions::multiplicity` in [`accessor`], which ask `gltf` for element
//! sizes, and `full_mip_levels` in [`resources`], which asks `vulkano` for
//! the length of a mip chain.

pub mod accessor;
pub mod document;
pub mod draw;
pub mod error;
pub mod forest;
pub mod model;
pub mod resources;
pub mod task;
pub mod transform;
