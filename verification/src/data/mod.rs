//! What the program knows about itself.

pub mod cargo_toml;
