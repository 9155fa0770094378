//! Sorting the files of one directory into category folders by extension.
//!
//! The library holds the rules: which entries of a directory are taken, how a
//! file name maps to a category, how a configuration text becomes a
//! classification table, and which moves follow. Reading directories and
//! renaming files is left to the caller.

pub mod config;
pub mod error;
pub mod name;
pub mod plan;
pub mod scan;
pub mod table;
pub mod text;
pub mod transfer;
pub mod tree;
