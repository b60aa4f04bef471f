//! A parser for versioned recipe files.
//!
//! Raw recipe text is classified by its leading version marker, checked
//! against the grammar of that schema version, and turned into an in-memory
//! document that tracks whether it has unsaved modifications.

pub mod parser;
