//! Resolution of a final runtime configuration from two potentially
//! conflicting sources — command-line tokens and tokens recovered from an
//! optional configuration file — under a strict per-option precedence rule,
//! together with compilation of the resulting glob patterns into a
//! path-matching filter.
//!
//! The precedence merger, the token rendering rules, the identifier
//! deduplication pass and the filter compilation order are verified; the
//! token parser itself (clap) and the glob engine (ignore) are outside
//! collaborators reached through trusted wrappers.

pub mod args;
pub mod cli;
pub mod context;
pub mod filter;
pub mod merge;
pub mod numeral;
pub mod text;
