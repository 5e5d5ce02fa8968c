//! Audio data and the settings it absorbs.

pub mod data;
