//! Core of a desktop hex/binary viewer backend: a single-file session with a
//! cached length, block-aligned ranged reads, and interval-overlap queries
//! over a set of byte-range annotations (tags).

pub mod reader;
pub mod session;
pub mod tag;
