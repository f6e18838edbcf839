//! A bounded-memory, distance-prioritized decode cache for an image browser.

pub mod cli;
pub mod dedupe;
pub mod files;
pub mod laws;
pub mod loader;
pub mod model;
pub mod schedule;
pub mod ui;
pub mod worker;
