//! Static code-quality metrics engine.
//!
//! The core of a code-health analyzer: it takes, per candidate source file,
//! the raw text and the statement trees of the top-level functions (both
//! supplied by an unverified front end that reads the file system and runs
//! the grammar), and computes cyclomatic complexity, nesting depth, line and
//! comment counts, project-wide aggregates and a ranked list of the most
//! complex functions.

pub mod aggregate;
pub mod ast;
pub mod metrics;
pub mod sort;
pub mod text;
pub mod visitor;
pub mod weight;
