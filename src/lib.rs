//! Tile-grid discovery for zoomable images: an adaptive engine that finds the
//! extent of an unknown rectangular tile grid from pass/fail feedback, and a
//! provider that hands out a fixed, pre-expanded tile set.

pub mod custom_yaml;
pub mod dezoomer;
pub mod generic;
pub mod text;
