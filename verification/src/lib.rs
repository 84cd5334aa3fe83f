//! Core logic of the Gemini Draw desktop app: driving the `gemini-web-cli`
//! engine, reading what it prints, and laying out the app's data directory.

pub mod archive;
pub mod commands;
pub mod engine;
pub mod generation;
pub mod json;
pub mod laws;
pub mod model;
pub mod paths;
pub mod picture;
pub mod text;
