//! An incremental breadth-first search engine over a 2-D occupancy grid.
//!
//! The grid keeps compact per-cell state (wall / frontier / visited flags and
//! directional-origin bits) together with designated source and target cells;
//! the search controller advances the traversal by one unit of work per call,
//! so a host application can animate the search frame by frame.

pub mod controller;
pub mod laws;
pub mod model;
