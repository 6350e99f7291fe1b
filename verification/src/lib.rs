//! The rules of a tool that keeps the image tags of dockerfiles up to date.

pub mod cache;
pub mod cli;
pub mod files;
pub mod image;
pub mod line;
pub mod look_up;
pub mod release;
pub mod strategy;
pub mod tags;
pub mod text;
