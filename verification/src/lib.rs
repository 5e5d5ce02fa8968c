//! Verified core of an audio plugin for a game engine: name validation,
//! sound-bank lookup, mute and callback registries, emitter bookkeeping and
//! the engine loop's state machine.

pub mod names;
pub mod manifest;
pub mod audio;
pub mod bank;
pub mod engine;
pub mod abi;
