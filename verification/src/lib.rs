//! Verified core of `mensar`, a command-line client that shows today's menu
//! for a chosen cafeteria from a published weekly schedule.
//!
//! The library holds the menu-resolution pipeline: resolving a user query to
//! one facility of the catalog, narrowing a set of weekly rotations down to
//! the line elements served on a target date, rendering those line elements
//! as display text, and the persisted user defaults with their file format.
//! Fetching the catalog over HTTP, command-line parsing and terminal colour
//! are plumbing around the library and live outside it.

pub mod defaults;
pub mod error;
pub mod model;
pub mod render;
pub mod resolver;
pub mod schedule;
