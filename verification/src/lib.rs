//! Parser combinators over a caller-supplied token stream.
//!
//! A stream type gains the derived parsing operations (`next`, `predicate`,
//! `atom`, `string`, `try_op`, `choose_first`, `many`, `many1`, `optional`)
//! by implementing the capability contract of [`parser::Parser`]: peeking,
//! consuming, error construction, and a save/load checkpoint. The derived
//! operations are written once against that contract, with backtracking and
//! error reporting proved from it.

pub mod combine;
pub mod message;
pub mod numeral;
pub mod ops;
pub mod parser;
pub mod stream;
pub mod token;
