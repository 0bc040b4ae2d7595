//! A small register-based virtual machine for a comma/space-delimited
//! assembly-like language: a loader that tokenizes source text into a
//! statement list and label table, a bank of nine typed registers, and a
//! fetch-decode-execute engine whose behaviour is pinned to a mathematical
//! small-step semantics.

pub mod laws;
pub mod machine;
pub mod num;
pub mod processor;
pub mod read;
