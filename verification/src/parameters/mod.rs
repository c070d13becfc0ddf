//! The parameters of a search whose verifier is a child process.
pub mod data;
pub mod spawn;

pub use data::CrackParam;
pub use spawn::Spawn;
