//! Engine-side bookkeeping.

pub mod callbacks;
pub mod controls;
pub mod dilation;
pub mod emitters;
pub mod flags;
pub mod handles;
pub mod mutes;
pub mod queue;
pub mod replacement;
pub mod routing;
pub mod state;
