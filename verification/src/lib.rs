//! Extraction of typed records from the text that a cluster command-line
//! tool prints: node descriptions and deployment manifests.

pub mod deployment;
pub mod failure;
pub mod listing;
pub mod node;
pub mod number;
pub mod order;
pub mod pattern;
pub mod quantity;
pub mod text;
