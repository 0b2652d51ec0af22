//! Byte-accurate layout of C bit-fields for a transpiler backend.
//!
//! A C struct may pack members narrower than a byte into shared storage
//! bytes.  This crate turns the per-field ABI descriptors of such a struct
//! into an abstract, byte-for-byte layout description: consecutive
//! bit-fields are merged into byte-array groups, gaps become explicit
//! padding, and ordinary members pass through unchanged.  On top of that
//! layout it builds zero and literal initializer plans and rewrites
//! compound assignments to bit-field members into setter calls.
//!
//! The crate produces abstract descriptions only; rendering them as source
//! text is left to its callers.

pub mod assign;
pub mod classify;
pub mod coverage;
pub mod emit;
pub mod error;
pub mod field;
pub mod init;
pub mod text;
