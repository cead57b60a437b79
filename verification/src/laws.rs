//! What the operations are for, stated of their results.
//!
//! Each law speaks of characters, bytes, places and names, or of how the results
//! for two inputs relate, for all inputs: a list is read in its order, every
//! argument of a command is where it belongs, every text is written as its syntax
//! asks.

pub mod commands;
pub mod filters;
pub mod indexes;
pub mod operations;
pub mod replies;
pub mod searches;
pub mod values;
