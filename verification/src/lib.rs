//! Batch string edit distances and similarities, with Unicode-aware cleaning.
//!
//! The crate compares sequences of optional strings elementwise or against a
//! single broadcast scalar, computing Levenshtein and Damerau-Levenshtein
//! distances, bounded-distance membership, and normalized similarity scores,
//! with strict null propagation and an execution mode flag that never changes
//! the output.

pub mod batch;
pub mod clean;
pub mod comparator;
pub mod edit;
