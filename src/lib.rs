//! Line-oriented concatenation with optional line numbering: the pure
//! logic of a small `cat`-like tool, with its contracts.
pub mod digits;
pub mod format;
pub mod config;
pub mod numbering;
