//! Plain values that scripts hand over.

use vstd::prelude::*;

use crate::engine::mutes::EventHookTypes;
use crate::names::{CName, EntityId};

verus! {

/// Kind of an equalizer band.
#[derive(Debug, Clone, Copy, PartialEq, Eq, Structural, Default)]
pub enum EqFilterKind {
    #[default]
    Bell,
    LowShelf,
    HighShelf,
}

/// Kind of distortion.
#[derive(Debug, Clone, Copy, PartialEq, Eq, Structural, Default)]
pub enum DistortionKind {
    #[default]
    HardClip,
    SoftClip,
}

/// Mode of a filter.
#[derive(Debug, Clone, Copy, PartialEq, Eq, Structural, Default)]
pub enum FilterMode {
    #[default]
    LowPass,
    BandPass,
    HighPass,
    Notch,
}

/// What an audio event does.
#[derive(Debug, Clone, Copy, PartialEq, Eq, Structural)]
pub enum EventActionType {
    Play,
    PlayAnimation,
    SetParameter,
    StopSound,
    SetSwitch,
    StopTagged,
    PlayExternal,
    Tag,
    Untag,
    SetAppearanceName,
    SetEntityName,
    AddContainerStreamingPrefetch,
    RemoveContainerStreamingPrefetch,
}

/// Identifier of a sound in the game's audio middleware.
#[derive(Debug, Clone, Copy, PartialEq, Eq, Structural)]
pub struct WwiseId(pub u32);

/// A filter that a callback can be narrowed by.
#[derive(Debug, Clone, Copy, PartialEq, Eq, Structural)]
pub enum AnyTarget {
    Hook(EventHookTypes),
    Type(EventActionType),
    Wwise(WwiseId),
    Id(EntityId),
    EmitterName(CName),
}

/// How long a callback stays registered.
#[derive(Debug, Clone, Copy, PartialEq, Eq, Structural)]
pub enum AudioEventCallbackLifetime {
    Session,
    Forever,
}

/// The player's equalizer preset; `Off` is the game's `None` preset.
#[derive(Debug, Clone, Copy, PartialEq, Eq, Structural)]
pub enum Preset {
    Off,
    OnThePhone,
    Underwater,
}

} // verus!
