//! Commands that game scripts send to the engine loop.

use vstd::prelude::*;

use crate::engine::controls::ControlId;
use crate::manifest::PlayerGender;
use crate::names::{CName, EntityId, TagName, TargetId};

verus! {

#[allow(inconsistent_fields)]
/// A command for the engine loop. The parameters stand for what the loop
/// only hands on to the audio engine: `S` the settings a sound plays with,
/// `T` a tween, `L` the type of a dialog line, and `F` a time in seconds.
pub enum Command<S, T, L, F> {
    PlayVanilla { event_name: CName, entity_id: Option<EntityId>, emitter_name: Option<CName> },
    Play {
        event_name: CName,
        entity_id: Option<EntityId>,
        emitter_name: Option<CName>,
        line_type: Option<L>,
        ext: Option<S>,
    },
    EnqueueAndPlay {
        event_name: CName,
        entity_id: Option<EntityId>,
        emitter_name: Option<CName>,
        line_type: Option<L>,
        ext: Option<S>,
        control_id: ControlId,
    },
    PlayOnEmitter { event_name: CName, entity_id: TargetId, tag_name: TagName, ext: Option<S> },
    EnqueueAndPlayOnEmitter {
        event_name: CName,
        entity_id: TargetId,
        tag_name: TagName,
        ext: Option<S>,
        control_id: ControlId,
    },
    PlayOverThePhone { event_name: CName, emitter_name: CName, gender: PlayerGender },
    PlaySceneDialog {
        string_id: i64,
        entity_id: EntityId,
        is_player: bool,
        is_holocall: bool,
        is_rewind: bool,
        seek_time: F,
    },
    StopSceneDialog { string_id: i64, fade_out: F },
    StopOnEmitter { event_name: CName, entity_id: TargetId, tag_name: TagName, tween: Option<T> },
    StopVanilla { event_name: CName, entity_id: Option<EntityId>, emitter_name: Option<CName> },
    Stop { event_name: CName, entity_id: Option<EntityId>, emitter_name: Option<CName>, tween: Option<T> },
    Switch {
        switch_name: CName,
        switch_value: CName,
        entity_id: Option<EntityId>,
        emitter_name: Option<CName>,
        switch_name_tween: Option<T>,
        switch_value_settings: Option<S>,
    },
    SwitchVanilla {
        switch_name: CName,
        switch_value: CName,
        entity_id: Option<EntityId>,
        emitter_name: Option<CName>,
    },
}

/// The line that tells of a command.
pub open spec fn command_text<S, T, L, F>(c: Command<S, T, L, F>) -> Seq<char> {
    match c {
        Command::PlayVanilla { .. } => "play vanilla"@,
        Command::Play { .. } => "play"@,
        Command::PlayOnEmitter { .. } => "play on emitter"@,
        Command::PlayOverThePhone { .. } => "play over the phone"@,
        Command::PlaySceneDialog { .. } => "play scene dialog"@,
        Command::StopSceneDialog { .. } => "stop scene dialog"@,
        Command::StopOnEmitter { .. } => "stop on emitter"@,
        Command::StopVanilla { .. } => "stop vanilla"@,
        Command::Stop { .. } => "stop"@,
        Command::Switch { .. } => "switch"@,
        Command::SwitchVanilla { .. } => "switch vanilla"@,
        Command::EnqueueAndPlay { .. } => "enqueue and play"@,
        Command::EnqueueAndPlayOnEmitter { .. } => "enqueue and play on emitter"@,
    }
}

impl<S, T, L, F> Command<S, T, L, F> {
    /// The line that tells of the command.
    pub fn describe(&self) -> (r: String)
        ensures
            r@ == command_text(*self),
    {
        match self {
            Command::PlayVanilla { .. } => String::from_str("play vanilla"),
            Command::Play { .. } => String::from_str("play"),
            Command::PlayOnEmitter { .. } => String::from_str("play on emitter"),
            Command::PlayOverThePhone { .. } => String::from_str("play over the phone"),
            Command::PlaySceneDialog { .. } => String::from_str("play scene dialog"),
            Command::StopSceneDialog { .. } => String::from_str("stop scene dialog"),
            Command::StopOnEmitter { .. } => String::from_str("stop on emitter"),
            Command::StopVanilla { .. } => String::from_str("stop vanilla"),
            Command::Stop { .. } => String::from_str("stop"),
            Command::Switch { .. } => String::from_str("switch"),
            Command::SwitchVanilla { .. } => String::from_str("switch vanilla"),
            Command::EnqueueAndPlay { .. } => String::from_str("enqueue and play"),
            Command::EnqueueAndPlayOnEmitter { .. } => String::from_str("enqueue and play on emitter"),
        }
    }
}

} // verus!
