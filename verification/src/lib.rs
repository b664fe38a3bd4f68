//! An admission-control policy over nested, partially typed documents.
//!
//! Given a resource kind, a resource body, and a set of configured override
//! values, the engine decides whether to let the resource through unchanged
//! or to substitute a rewritten copy.

pub mod doc;
pub mod engine;
pub mod jsonio;
pub mod settings;
