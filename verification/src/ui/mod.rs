//! What the viewer draws with, and how it moves.

pub mod nav;
pub mod render;
