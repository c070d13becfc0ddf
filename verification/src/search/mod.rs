//! The search itself: its parameters, the plan that splits it into shards,
//! the workers that walk the shards, and the result they add up to.
pub mod worker;
pub mod plan;
pub mod param_interface;
pub mod internal;
pub mod result;

pub use param_interface::CrackParam;
