//! An indented, line-per-node dump of a parsed HTML document tree.

pub mod dom;
pub mod escape;
pub mod format;
pub mod parse;
pub mod layout;
