//! Builds a compact search index of package metadata: ranks packages by
//! popularity, resolves each one's newest version, collects the token corpus
//! for a substitution dictionary, and renders the index as script text.

pub mod collector;
pub mod index;
pub mod laws;
pub mod package;
pub mod pipeline;
pub mod rank;
pub mod resolve;
pub mod version;
