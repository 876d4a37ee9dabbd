//! Unpacks archives of unreliable format into exactly one new item.
//!
//! The crate holds the decisions of the tool: how an archive's true format is
//! told from its content and its name, which entries of an archive may be
//! written and where, how the scratch directory is placed and named, and how
//! the unpacked content is published without ever replacing what exists.
//! Reading and writing files is left to the caller, which hands in plain
//! values and carries out the actions that come back.

pub mod archive;
pub mod cli;
pub mod decimal;
pub mod formats;
pub mod paths;
pub mod text;
pub mod utils;
