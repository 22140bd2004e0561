//! A status-widget core for a tiling window manager: given the current
//! monitors and workspaces, it classifies each workspace (active, occupied,
//! on screen, style class), optionally pads the list to a fixed number of
//! slots, partitions the padded list into contiguous per-monitor windows,
//! and assembles the snapshot value that the surrounding program serializes.

pub mod classify;
pub mod digits;
pub mod fill;
pub mod model;
pub mod partition;
pub mod snapshot;
