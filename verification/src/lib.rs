//! A small, embeddable expression language over JSON values: a parsed
//! selection (a chain of key accesses, variable references and arrow
//! methods such as `->map`, `->match` or `->add`) is applied to an
//! input value and yields a transformed value, a set of structured
//! errors, or both. Failures are local: they are recorded in an
//! ordered, deduplicating error accumulator and do not abort sibling
//! branches of the evaluation.
//!
//! Every evaluator and method in this crate is verified against the
//! `spec_*` functions that state its meaning; the `laws` module proves
//! the properties that relate them.

pub mod ast;
pub mod laws;
pub mod errors;
pub mod eval;
pub mod methods;
pub mod num;
pub mod value;
