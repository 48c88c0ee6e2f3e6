//! Incremental generation of Python source text.
//!
//! The crate has two parts: a literal formatter, which turns native values
//! into Python literal syntax, and a program builder, which accumulates a
//! script line by line while tracking the current indentation depth.
//! The builder's buffer lives in memory; writing it to disk or handing it
//! to an interpreter is left to the surrounding application.

pub mod literal;
pub mod nesting;
pub mod program;
