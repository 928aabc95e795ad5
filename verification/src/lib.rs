//! Rendering of labelled trees as indented text with box-drawing connectors.

pub mod node;
pub mod render;
pub mod convert;
pub mod sample;
pub mod laws;
