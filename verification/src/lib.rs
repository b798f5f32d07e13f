//! Classification, comparison and rewriting of identifier naming styles.
//!
//! The crate recognises the naming conventions commonly enforced by lint
//! rules (camelCase, CONSTANT_CASE, kebab-case, and so on), decides whether
//! a name written in one convention also satisfies another, and rewrites a
//! name into a chosen convention.

pub mod case;
pub mod chars;
pub mod classify;
pub mod convert;
pub mod laws;

pub use case::Case;
