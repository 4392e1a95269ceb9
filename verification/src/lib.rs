//! Structure inspection for binary media containers.
//!
//! The crate walks the nested records of a container held in memory, decodes
//! the fixed-layout fields of each record and presents the result as a tree of
//! named elements.  Two container families are understood: the box tree of
//! ISO base media files and the chunk sequence of RealMedia files.  Every
//! decoder is stated against a model of the byte stream and proved to follow it.

pub mod analyzer;
pub mod console;
pub mod encoding;
pub mod error;
pub mod reader;
pub mod text;
