//! Core logic of the NeuroFlow browser companion.

pub mod text;
pub mod models;
pub mod utils;
pub mod privacy;
pub mod config;
pub mod server;
pub mod network;
pub mod preload;
pub mod monitor;
pub mod diagnosis;
pub mod commands;
