//! A local package-index cache with conditional refresh, and a review step
//! that compares a package's build recipe against the last reviewed copy
//! before anything is installed.
pub mod cli;
pub mod index;
pub mod review;
pub mod store;
pub mod sync;
pub mod text;
pub mod upgrade;
