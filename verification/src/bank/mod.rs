//! Sound banks: the audio that mods declare, by id.

pub mod id;
pub mod key;
pub mod error;
pub mod registry;
pub mod ensure;
pub mod storage;
pub mod subtitles;
pub mod load;
