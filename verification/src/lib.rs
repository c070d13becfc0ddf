//! A parallel brute-force search engine over a symbol alphabet.
//!
//! The crate enumerates every candidate string of a length range in shortlex
//! order, splits that enumeration over a fixed pool of workers by stride, and
//! folds the workers' reports into one result. All arithmetic on the size of
//! the candidate space is overflow-checked.
pub mod symbols;
pub mod parameters;
pub mod shortlex;
pub mod indices;
pub mod search;
