//! A verified core for a commit-message assistant: revision resolution over a
//! content-addressed commit graph, tree diffing with binary detection, a
//! unified-diff formatter, and the small state machines and data types that
//! surround them.

pub mod binary;
pub mod config;
pub mod diff;
pub mod entry;
pub mod errors;
pub mod format;
pub mod graph;
pub mod ids;
pub mod laws;
pub mod lines;
pub mod message;
pub mod model;
pub mod options;
pub mod repo;
pub mod session;
pub mod textutil;
pub mod tree;
pub mod util;
