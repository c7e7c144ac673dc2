//! A launcher for Pokemon fan games: installing, verifying, updating and
//! launching games, and adding them to Steam.
pub mod engine;
pub mod db;
pub mod error;
pub mod platform;
pub mod text;
pub mod utils;
