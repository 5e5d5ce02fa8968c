//! Values exchanged with game scripts.

pub mod callback;
pub mod command;
pub mod lifecycle;
pub mod text;
pub mod types;
