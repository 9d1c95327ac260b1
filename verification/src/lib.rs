//! A filename search library: classify filesystem entries handed in by a
//! traversal, match names against a substring pattern, list archive entries,
//! and account for every entry processed and every match produced.

pub mod archive;
pub mod engine;
pub mod laws;
pub mod matching;
