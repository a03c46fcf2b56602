//! An interactive browser over a filesystem tree and the group/array
//! hierarchies stored inside it, built around a verified navigation state
//! machine.
pub mod common;
pub mod menu;
pub mod filesystem_utils;
pub mod filesystem_walker;
pub mod format;
pub mod text;
pub mod walkers;
pub mod zarr_utils;
