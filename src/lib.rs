//! A fixed-size rectangular grid of integer tile values, with exporters to CSV,
//! JSON and TMX text.

pub mod dump;
pub mod grid;
pub mod text;
