//! Nova: a zsh prompt renderer.

pub mod cache;
pub mod cli;
pub mod config;
pub mod render;
pub mod segments;
pub mod state;
pub mod text;
pub mod worker;
pub mod zsh_init;
