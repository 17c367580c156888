//! Positional ("pointwise") matching of an observed sequence against an
//! ordered list of per-position predicates, with verified human-readable
//! diagnostics for content and length mismatches.

pub mod paired_walker;
pub mod pointwise_matcher;
pub mod predicate;
pub mod predicates;
pub mod text;
