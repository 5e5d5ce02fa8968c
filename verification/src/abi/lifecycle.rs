//! Notifications that scripts and the game send to the engine loop.

use vstd::prelude::*;

use crate::engine::mutes::EventHookTypes;
use crate::engine::queue::LoopEvent;
use crate::names::EventName;

verus! {

/// Game session lifecycle.
#[derive(Debug, Clone, Copy, PartialEq, Eq, Structural)]
pub enum Session {
    BeforeStart,
    Start,
    Ready,
    Pause,
    Resume,
    BeforeEnd,
    End,
}

/// Game system lifecycle.
#[derive(Debug, Clone, Copy, PartialEq, Eq, Structural)]
pub enum System {
    Attach,
    Detach,
    PlayerAttach,
    PlayerDetach,
}

/// The line that tells of a game system event.
pub open spec fn system_text(s: System) -> Seq<char> {
    match s {
        System::Attach => "game system attach"@,
        System::Detach => "game system detach"@,
        System::PlayerAttach => "game system player attach"@,
        System::PlayerDetach => "game system player detach"@,
    }
}

impl System {
    /// The line that tells of the event.
    pub fn describe(&self) -> (r: String)
        ensures
            r@ == system_text(*self),
    {
        match self {
            System::Attach => String::from_str("game system attach"),
            System::Detach => String::from_str("game system detach"),
            System::PlayerAttach => String::from_str("game system player attach"),
            System::PlayerDetach => String::from_str("game system player detach"),
        }
    }
}

/// Requests to (un)mute vanilla audio events.
#[derive(Debug, Clone, Copy, PartialEq, Eq, Structural)]
pub enum ReplacementNotification {
    Mute(EventName),
    MuteSpecific(EventName, EventHookTypes),
    Unmute(EventName),
    UnmuteSpecific(EventName, EventHookTypes),
}

/// The plugin, as the game sees it.
pub struct Audioware;

/// Notifications of the game session's lifecycle, each made into the event
/// that the engine loop receives.
pub trait GameSessionLifecycle {
    fn on_game_session_before_start() -> LoopEvent;

    fn on_game_session_start() -> LoopEvent;

    fn on_game_session_ready() -> LoopEvent;

    fn on_game_session_pause() -> LoopEvent;

    fn on_game_session_resume() -> LoopEvent;

    fn on_game_session_before_end() -> LoopEvent;

    fn on_game_session_end() -> LoopEvent;
}

/// Notifications of the game system's lifecycle.
pub trait GameSystemLifecycle {
    fn on_game_system_attach() -> LoopEvent;

    fn on_game_system_detach() -> LoopEvent;

    fn on_game_system_player_attach() -> LoopEvent;

    fn on_game_system_player_detach() -> LoopEvent;
}

/// Notification that the banks changed on disk.
pub trait HotReload {
    fn hot_reload() -> LoopEvent;
}

impl GameSessionLifecycle for Audioware {
    fn on_game_session_before_start() -> (r: LoopEvent)
        ensures
            r == LoopEvent::Session(Session::BeforeStart),
    {
        LoopEvent::Session(Session::BeforeStart)
    }

    fn on_game_session_start() -> (r: LoopEvent)
        ensures
            r == LoopEvent::Session(Session::Start),
    {
        LoopEvent::Session(Session::Start)
    }

    fn on_game_session_ready() -> (r: LoopEvent)
        ensures
            r == LoopEvent::Session(Session::Ready),
    {
        LoopEvent::Session(Session::Ready)
    }

    fn on_game_session_pause() -> (r: LoopEvent)
        ensures
            r == LoopEvent::Session(Session::Pause),
    {
        LoopEvent::Session(Session::Pause)
    }

    fn on_game_session_resume() -> (r: LoopEvent)
        ensures
            r == LoopEvent::Session(Session::Resume),
    {
        LoopEvent::Session(Session::Resume)
    }

    fn on_game_session_before_end() -> (r: LoopEvent)
        ensures
            r == LoopEvent::Session(Session::BeforeEnd),
    {
        LoopEvent::Session(Session::BeforeEnd)
    }

    fn on_game_session_end() -> (r: LoopEvent)
        ensures
            r == LoopEvent::Session(Session::End),
    {
        LoopEvent::Session(Session::End)
    }
}

impl GameSystemLifecycle for Audioware {
    fn on_game_system_attach() -> (r: LoopEvent)
        ensures
            r == LoopEvent::System(System::Attach),
    {
        LoopEvent::System(System::Attach)
    }

    fn on_game_system_detach() -> (r: LoopEvent)
        ensures
            r == LoopEvent::System(System::Detach),
    {
        LoopEvent::System(System::Detach)
    }

    fn on_game_system_player_attach() -> (r: LoopEvent)
        ensures
            r == LoopEvent::System(System::PlayerAttach),
    {
        LoopEvent::System(System::PlayerAttach)
    }

    fn on_game_system_player_detach() -> (r: LoopEvent)
        ensures
            r == LoopEvent::System(System::PlayerDetach),
    {
        LoopEvent::System(System::PlayerDetach)
    }
}

impl HotReload for Audioware {
    fn hot_reload() -> (r: LoopEvent)
        ensures
            r == LoopEvent::HotReload,
    {
        LoopEvent::HotReload
    }
}

} // verus!
