//! Embedded-font recovery for OOXML packages.

pub mod archive;
pub mod extract;
pub mod font_data;
pub mod fixtures;
pub mod font_tables;
pub mod guid;
pub mod naming;
pub mod package;
pub mod samples;
pub mod splice;
pub mod text;
pub mod xml;
