//! Pico: a codec that reads structural metadata from PNG byte streams and
//! encodes collections of PNG images into ICO container files.

pub mod config;
pub mod encode;
pub mod error;
pub mod icon;
pub mod image;
pub mod serialize;
