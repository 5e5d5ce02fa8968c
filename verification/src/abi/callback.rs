//! Audio events reported by the game, and requests about the callbacks that
//! scripts register for them.

use vstd::prelude::*;

use crate::abi::types::{AnyTarget, EventActionType, WwiseId};
use crate::engine::mutes::EventHookTypes;
use crate::names::{ClassName, CName, EntityId, EventName, FunctionName};

verus! {

/// A script object that a member callback is called on, by its handle.
#[derive(Debug, Clone, Copy, PartialEq, Eq, Structural)]
pub struct ScriptRef(pub u64);

/// A request about callbacks, queued until the engine loop applies it.
#[derive(Debug, Clone, Copy, PartialEq, Eq, Structural)]
#[allow(inconsistent_fields)]
pub enum Callback {
    RegisterFunction {
        event_name: EventName,
        target: ScriptRef,
        function_name: FunctionName,
        id: usize,
    },
    RegisterStaticFunction {
        event_name: EventName,
        class_name: ClassName,
        function_name: FunctionName,
        id: usize,
    },
    FireCallbacks(FireCallback),
    Unregister { id: usize },
    Filter { id: usize, target: AnyTarget, add: bool },
    SetLifetime { id: usize, sticky: bool },
}

/// An audio event reported by the game, with the values callbacks are
/// filtered by.
#[derive(Debug, Clone, Copy, PartialEq, Eq, Structural)]
pub enum FireCallback {
    Play(FirePlayCallback),
    PlayExternal(FirePlayExternalCallback),
    PlayOneShot(FirePlayOneShotCallback),
    SetGlobalParameter(FireSetGlobalParameterCallback),
    SetParameter(FireSetParameterCallback),
    SetSwitch(FireSetSwitchCallback),
    SetAppearanceName(FireSetAppearanceNameCallback),
    SetEntityName(FireSetEntityNameCallback),
    Stop(FireStopCallback),
    StopTagged(FireStopTaggedCallback),
    Tag(FireTagCallback),
    Untag(FireUntagCallback),
    AddContainerStreamingPrefetch(FireAddContainerStreamingPrefetchCallback),
    RemoveContainerStreamingPrefetch(FireRemoveContainerStreamingPrefetchCallback),
}

#[derive(Debug, Clone, Copy, PartialEq, Eq, Structural)]
pub struct FirePlayCallback {
    pub event_name: EventName,
    pub event_type: EventActionType,
    pub entity_id: EntityId,
    pub emitter_name: CName,
    pub wwise_id: WwiseId,
}

#[derive(Debug, Clone, Copy, PartialEq, Eq, Structural)]
pub struct FirePlayExternalCallback {
    pub base: FirePlayCallback,
}

#[derive(Debug, Clone, Copy, PartialEq, Eq, Structural)]
pub struct FirePlayOneShotCallback {
    pub base: FirePlayCallback,
}

#[derive(Debug, Clone, Copy, PartialEq, Eq, Structural)]
pub struct FireSetGlobalParameterCallback {
    pub name: EventName,
    pub wwise_id: WwiseId,
}

#[derive(Debug, Clone, Copy, PartialEq, Eq, Structural)]
pub struct FireSetParameterCallback {
    pub base: FirePlayCallback,
    pub switch_name: CName,
}

#[derive(Debug, Clone, Copy, PartialEq, Eq, Structural)]
pub struct FireSetSwitchCallback {
    pub base: FirePlayCallback,
    pub switch_name: CName,
    pub switch_value: CName,
    pub switch_name_wwise_id: WwiseId,
    pub switch_value_wwise_id: WwiseId,
}

#[derive(Debug, Clone, Copy, PartialEq, Eq, Structural)]
pub struct FireSetAppearanceNameCallback {
    pub event_name: EventName,
    pub entity_id: EntityId,
    pub wwise_id: WwiseId,
}

#[derive(Debug, Clone, Copy, PartialEq, Eq, Structural)]
pub struct FireSetEntityNameCallback {
    pub event_name: EventName,
    pub entity_id: EntityId,
    pub wwise_id: WwiseId,
}

#[derive(Debug, Clone, Copy, PartialEq, Eq, Structural)]
pub struct FireStopCallback {
    pub event_name: EventName,
    pub event_type: EventActionType,
    pub entity_id: EntityId,
    pub wwise_id: WwiseId,
}

#[derive(Debug, Clone, Copy, PartialEq, Eq, Structural)]
pub struct FireStopTaggedCallback {
    pub event_name: EventName,
    pub event_type: EventActionType,
    pub entity_id: EntityId,
    pub wwise_id: WwiseId,
}

#[derive(Debug, Clone, Copy, PartialEq, Eq, Structural)]
pub struct FireTagCallback {
    pub event_name: EventName,
    pub event_type: EventActionType,
    pub entity_id: EntityId,
    pub wwise_id: WwiseId,
}

#[derive(Debug, Clone, Copy, PartialEq, Eq, Structural)]
pub struct FireUntagCallback {
    pub event_name: EventName,
    pub event_type: EventActionType,
    pub entity_id: EntityId,
    pub wwise_id: WwiseId,
}

#[derive(Debug, Clone, Copy, PartialEq, Eq, Structural)]
pub struct FireAddContainerStreamingPrefetchCallback {
    pub event_name: EventName,
    pub event_type: EventActionType,
    pub entity_id: EntityId,
    pub wwise_id: WwiseId,
}

#[derive(Debug, Clone, Copy, PartialEq, Eq, Structural)]
pub struct FireRemoveContainerStreamingPrefetchCallback {
    pub event_name: EventName,
    pub event_type: EventActionType,
    pub entity_id: EntityId,
    pub wwise_id: WwiseId,
}

/// The play event that an event derives from, if any.
pub open spec fn play_base(f: FireCallback) -> Option<FirePlayCallback> {
    match f {
        FireCallback::Play(x) => Some(x),
        FireCallback::PlayExternal(x) => Some(x.base),
        FireCallback::PlayOneShot(x) => Some(x.base),
        FireCallback::SetParameter(x) => Some(x.base),
        FireCallback::SetSwitch(x) => Some(x.base),
        _ => None,
    }
}

/// The name of the event.
pub open spec fn fire_event_name(f: FireCallback) -> EventName {
    match f {
        FireCallback::Play(x) => x.event_name,
        FireCallback::PlayExternal(x) => x.base.event_name,
        FireCallback::PlayOneShot(x) => x.base.event_name,
        FireCallback::SetGlobalParameter(x) => x.name,
        FireCallback::SetParameter(x) => x.base.event_name,
        FireCallback::SetSwitch(x) => x.base.event_name,
        FireCallback::SetAppearanceName(x) => x.event_name,
        FireCallback::SetEntityName(x) => x.event_name,
        FireCallback::Stop(x) => x.event_name,
        FireCallback::StopTagged(x) => x.event_name,
        FireCallback::Tag(x) => x.event_name,
        FireCallback::Untag(x) => x.event_name,
        FireCallback::AddContainerStreamingPrefetch(x) => x.event_name,
        FireCallback::RemoveContainerStreamingPrefetch(x) => x.event_name,
    }
}

/// What the event does.
pub open spec fn fire_event_type(f: FireCallback) -> EventActionType {
    match f {
        FireCallback::Play(x) => x.event_type,
        FireCallback::PlayOneShot(x) => x.base.event_type,
        FireCallback::PlayExternal(_) => EventActionType::PlayExternal,
        FireCallback::SetGlobalParameter(_) => EventActionType::SetParameter,
        FireCallback::SetParameter(_) => EventActionType::SetParameter,
        FireCallback::SetSwitch(_) => EventActionType::SetSwitch,
        FireCallback::SetAppearanceName(_) => EventActionType::SetAppearanceName,
        FireCallback::SetEntityName(_) => EventActionType::SetEntityName,
        FireCallback::Stop(_) => EventActionType::StopSound,
        FireCallback::StopTagged(_) => EventActionType::StopTagged,
        FireCallback::Tag(_) => EventActionType::Tag,
        FireCallback::Untag(_) => EventActionType::Untag,
        FireCallback::AddContainerStreamingPrefetch(_) => EventActionType::AddContainerStreamingPrefetch,
        FireCallback::RemoveContainerStreamingPrefetch(_) => EventActionType::RemoveContainerStreamingPrefetch,
    }
}

/// The entity the event concerns.
pub open spec fn fire_entity_id(f: FireCallback) -> Option<EntityId> {
    match f {
        FireCallback::SetGlobalParameter(_) => None,
        FireCallback::SetAppearanceName(x) => Some(x.entity_id),
        FireCallback::SetEntityName(x) => Some(x.entity_id),
        FireCallback::Stop(x) => Some(x.entity_id),
        FireCallback::StopTagged(x) => Some(x.entity_id),
        FireCallback::Tag(x) => Some(x.entity_id),
        FireCallback::Untag(x) => Some(x.entity_id),
        FireCallback::AddContainerStreamingPrefetch(x) => Some(x.entity_id),
        FireCallback::RemoveContainerStreamingPrefetch(x) => Some(x.entity_id),
        _ => Some(play_base(f).unwrap().entity_id),
    }
}

/// The emitter name the event carries.
pub open spec fn fire_emitter_name(f: FireCallback) -> Option<CName> {
    match play_base(f) {
        Some(b) => Some(b.emitter_name),
        None => None,
    }
}

/// The middleware identifier of the sound.
pub open spec fn fire_wwise_id(f: FireCallback) -> WwiseId {
    match f {
        FireCallback::SetGlobalParameter(x) => x.wwise_id,
        FireCallback::SetAppearanceName(x) => x.wwise_id,
        FireCallback::SetEntityName(x) => x.wwise_id,
        FireCallback::Stop(x) => x.wwise_id,
        FireCallback::StopTagged(x) => x.wwise_id,
        FireCallback::Tag(x) => x.wwise_id,
        FireCallback::Untag(x) => x.wwise_id,
        FireCallback::AddContainerStreamingPrefetch(x) => x.wwise_id,
        FireCallback::RemoveContainerStreamingPrefetch(x) => x.wwise_id,
        _ => play_base(f).unwrap().wwise_id,
    }
}

/// The hook flag of the event.
pub open spec fn fire_hook_bits(f: FireCallback) -> u16 {
    match f {
        FireCallback::Play(_) => 0x1u16,
        FireCallback::PlayOneShot(_) => 0x2u16,
        FireCallback::SetParameter(_) => 0x4u16,
        FireCallback::Stop(_) => 0x8u16,
        FireCallback::SetSwitch(_) => 0x10u16,
        FireCallback::StopTagged(_) => 0x20u16,
        FireCallback::PlayExternal(_) => 0x40u16,
        FireCallback::Tag(_) => 0x80u16,
        FireCallback::Untag(_) => 0x100u16,
        FireCallback::SetAppearanceName(_) => 0x200u16,
        FireCallback::SetEntityName(_) => 0x400u16,
        FireCallback::AddContainerStreamingPrefetch(_) => 0x800u16,
        FireCallback::RemoveContainerStreamingPrefetch(_) => 0x1000u16,
        FireCallback::SetGlobalParameter(_) => 0x2000u16,
    }
}

impl FireCallback {
    /// The name of the event.
    pub fn event_name(&self) -> (r: EventName)
        ensures
            r == fire_event_name(*self),
    {
        match self {
            FireCallback::Play(x) => x.event_name,
            FireCallback::PlayExternal(x) => x.base.event_name,
            FireCallback::PlayOneShot(x) => x.base.event_name,
            FireCallback::SetGlobalParameter(x) => x.name,
            FireCallback::SetParameter(x) => x.base.event_name,
            FireCallback::SetSwitch(x) => x.base.event_name,
            FireCallback::SetAppearanceName(x) => x.event_name,
            FireCallback::SetEntityName(x) => x.event_name,
            FireCallback::Stop(x) => x.event_name,
            FireCallback::StopTagged(x) => x.event_name,
            FireCallback::Tag(x) => x.event_name,
            FireCallback::Untag(x) => x.event_name,
            FireCallback::AddContainerStreamingPrefetch(x) => x.event_name,
            FireCallback::RemoveContainerStreamingPrefetch(x) => x.event_name,
        }
    }

    /// What the event does: play events carry it, the others imply it.
    pub fn event_type(&self) -> (r: EventActionType)
        ensures
            r == fire_event_type(*self),
    {
        match self {
            FireCallback::Play(x) => x.event_type,
            FireCallback::PlayOneShot(x) => x.base.event_type,
            FireCallback::PlayExternal(_) => EventActionType::PlayExternal,
            FireCallback::SetGlobalParameter(_) | FireCallback::SetParameter(_) => EventActionType::SetParameter,
            FireCallback::SetSwitch(_) => EventActionType::SetSwitch,
            FireCallback::SetAppearanceName(_) => EventActionType::SetAppearanceName,
            FireCallback::SetEntityName(_) => EventActionType::SetEntityName,
            FireCallback::Stop(_) => EventActionType::StopSound,
            FireCallback::StopTagged(_) => EventActionType::StopTagged,
            FireCallback::Tag(_) => EventActionType::Tag,
            FireCallback::Untag(_) => EventActionType::Untag,
            FireCallback::AddContainerStreamingPrefetch(_) => EventActionType::AddContainerStreamingPrefetch,
            FireCallback::RemoveContainerStreamingPrefetch(_) => EventActionType::RemoveContainerStreamingPrefetch,
        }
    }

    /// The entity the event concerns; global parameters concern none.
    pub fn entity_id(&self) -> (r: Option<EntityId>)
        ensures
            r == fire_entity_id(*self),
    {
        match self {
            FireCallback::Play(x) => Some(x.entity_id),
            FireCallback::PlayExternal(x) => Some(x.base.entity_id),
            FireCallback::PlayOneShot(x) => Some(x.base.entity_id),
            FireCallback::SetParameter(x) => Some(x.base.entity_id),
            FireCallback::SetSwitch(x) => Some(x.base.entity_id),
            FireCallback::SetAppearanceName(x) => Some(x.entity_id),
            FireCallback::SetEntityName(x) => Some(x.entity_id),
            FireCallback::Stop(x) => Some(x.entity_id),
            FireCallback::StopTagged(x) => Some(x.entity_id),
            FireCallback::Tag(x) => Some(x.entity_id),
            FireCallback::Untag(x) => Some(x.entity_id),
            FireCallback::AddContainerStreamingPrefetch(x) => Some(x.entity_id),
            FireCallback::RemoveContainerStreamingPrefetch(x) => Some(x.entity_id),
            FireCallback::SetGlobalParameter(_) => None,
        }
    }

    /// The emitter name the event carries; only play events carry one.
    pub fn emitter_name(&self) -> (r: Option<CName>)
        ensures
            r == fire_emitter_name(*self),
    {
        match self {
            FireCallback::Play(x) => Some(x.emitter_name),
            FireCallback::PlayExternal(x) => Some(x.base.emitter_name),
            FireCallback::PlayOneShot(x) => Some(x.base.emitter_name),
            FireCallback::SetParameter(x) => Some(x.base.emitter_name),
            FireCallback::SetSwitch(x) => Some(x.base.emitter_name),
            FireCallback::SetAppearanceName(_)
            | FireCallback::SetEntityName(_)
            | FireCallback::Stop(_)
            | FireCallback::StopTagged(_)
            | FireCallback::Tag(_)
            | FireCallback::Untag(_)
            | FireCallback::AddContainerStreamingPrefetch(_)
            | FireCallback::RemoveContainerStreamingPrefetch(_)
            | FireCallback::SetGlobalParameter(_) => None,
        }
    }

    /// The middleware identifier of the sound.
    pub fn wwise_id(&self) -> (r: WwiseId)
        ensures
            r == fire_wwise_id(*self),
    {
        match self {
            FireCallback::Play(x) => x.wwise_id,
            FireCallback::PlayExternal(x) => x.base.wwise_id,
            FireCallback::PlayOneShot(x) => x.base.wwise_id,
            FireCallback::SetParameter(x) => x.base.wwise_id,
            FireCallback::SetSwitch(x) => x.base.wwise_id,
            FireCallback::SetGlobalParameter(x) => x.wwise_id,
            FireCallback::SetAppearanceName(x) => x.wwise_id,
            FireCallback::SetEntityName(x) => x.wwise_id,
            FireCallback::Stop(x) => x.wwise_id,
            FireCallback::StopTagged(x) => x.wwise_id,
            FireCallback::Tag(x) => x.wwise_id,
            FireCallback::Untag(x) => x.wwise_id,
            FireCallback::AddContainerStreamingPrefetch(x) => x.wwise_id,
            FireCallback::RemoveContainerStreamingPrefetch(x) => x.wwise_id,
        }
    }

    /// The hook that reported the event, as a single flag.
    pub fn event_hook_type(&self) -> (r: EventHookTypes)
        ensures
            r.bits == fire_hook_bits(*self),
    {
        let bits: u16 = match self {
            FireCallback::Play(_) => 0x1,
            FireCallback::PlayOneShot(_) => 0x2,
            FireCallback::SetParameter(_) => 0x4,
            FireCallback::Stop(_) => 0x8,
            FireCallback::SetSwitch(_) => 0x10,
            FireCallback::StopTagged(_) => 0x20,
            FireCallback::PlayExternal(_) => 0x40,
            FireCallback::Tag(_) => 0x80,
            FireCallback::Untag(_) => 0x100,
            FireCallback::SetAppearanceName(_) => 0x200,
            FireCallback::SetEntityName(_) => 0x400,
            FireCallback::AddContainerStreamingPrefetch(_) => 0x800,
            FireCallback::RemoveContainerStreamingPrefetch(_) => 0x1000,
            FireCallback::SetGlobalParameter(_) => 0x2000,
        };
        EventHookTypes { bits }
    }
}

} // verus!
