//! Driving harness for a Boolean-satisfiability toolkit.
//!
//! The crate accepts a problem stated as a variable count plus an ordered
//! list of clauses, routes it to one of two solving engines from the `rsat`
//! crate, and reports a satisfying assignment, an unsatisfiability verdict
//! (optionally backed by a DRAT refutation certificate), or an inconclusive
//! result. The dispatch logic, the certificate emission format and the
//! output protocol are verified; the engines themselves are external
//! collaborators reached through trusted wrappers.

pub mod codec;
pub mod driver;
pub mod emit;
pub mod engine;
pub mod format;
pub mod model;
