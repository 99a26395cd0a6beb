//! A catalog of conversation sessions: discovery and aggregation of
//! transcript files across a local projects tree and mirrored remote
//! caches, fork-aware navigation, transcript search, and the pure
//! rendering behind an interactive picker.
//!
//! Everything that decides or computes lives here, stated in contracts and
//! verified; reading files, running transfers and drawing the terminal are
//! the calling binary's business.

pub mod catalog;
pub mod display;
pub mod fork_tree;
pub mod interactive_state;
pub mod message_classification;
pub mod records;
pub mod remote;
pub mod search;
pub mod session;
pub mod text;
