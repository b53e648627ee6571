//! Procedural level geometry and first-person motion for a static walkthrough
//! scene: wall and floor descriptors are turned into textured quad meshes with
//! collision segments, and a per-frame resolver moves a camera against those
//! segments.
//!
//! All geometry is carried in fixed-point integer coordinates (see
//! [`fixed::SCALE`]), so every rule in this crate is exact integer arithmetic.
//! The conversion to and from the host engine's floating-point world, and the
//! evaluation of sines and cosines for pointer rotation, belong to the thin
//! adapter around this crate.

pub mod collide;
pub mod fixed;
pub mod panel;
pub mod player;
pub mod scene;
pub mod vec2;
