//! A type-erased error container with causal chaining and diagnostic rendering.
//!
//! A concrete failure value, or one of the [`wrapper`] adapters around it, is
//! stored in an [`error::Error`] together with the source location and an
//! optional backtrace captured at the point of failure.  [`chain::Chain`]
//! walks the value and its transitive causes, and [`fmt`] renders the object
//! for end users and for debugging, using an indentation writer to produce
//! margin-aligned, optionally numbered cause blocks.

pub mod chain;
pub mod error;
pub mod fmt;
pub mod text;
pub mod wrapper;
