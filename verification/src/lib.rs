//! Recognition of build steps in the textual log of a native build tool.
//!
//! A log is a sequence of lines. A block starts with a header line whose first
//! word names the kind of step; the lines after it form the body of the block.
//! The modules below turn such lines into typed steps, each function with a
//! contract over sequences of characters.

pub mod text;
pub mod error;
pub mod description;
pub mod source;
pub mod consume;
pub mod steps;
pub mod engine;
pub mod machine;
