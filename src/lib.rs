//! Editing core of a 2D map editor: a geometry kernel on integer world
//! coordinates, an editable triangle mesh, the binary record that persists a
//! polygon, the adapter that prepares a polygon for rendering and collision,
//! and the per-click editing session.

pub mod geometry;
pub mod mesh;
pub mod base;
pub mod record;
pub mod meshes;
pub mod session;
pub mod states;
pub mod legacy;
