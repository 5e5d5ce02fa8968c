//! Decisions of the engine loop: how each notification changes the loop's
//! flags and what the engine must do about it.

use vstd::prelude::*;

use crate::abi::lifecycle::{ReplacementNotification, Session, System};
use crate::abi::types::Preset;
use crate::engine::flags::{Flags, FlagsView};

verus! {

/// A notification received by the engine loop, with the values the loop
/// decides on.
#[derive(Debug, Clone, Copy, PartialEq, Eq, Structural)]
pub enum LoopEvent {
    Terminate,
    ReportInitialization,
    SetMuteInBackground { value: bool },
    Session(Session),
    UIInGameNotificationRemove,
    /// The game switched menu scenario; `pause_menu` tells whether it is
    /// the pause menu.
    SwitchToScenario { pause_menu: bool },
    EngagementScreen,
    System(System),
    /// The in-game menu was opened or closed.
    UIMenu { opened: bool },
    Replacement(ReplacementNotification),
    /// Work that the engine does whatever the flags are, on values it
    /// alone reads (emitters, dilation, volume, reverb mix).
    EngineWork,
    /// Banks were edited on disk and must be loaded again.
    HotReload,
    /// The player's equalizer preset changed.
    Preset(Preset),
    /// Notifications that the loop ignores.
    Ignored,
}

/// What the engine must do once the loop has handled a notification.
#[derive(Debug, Clone, Copy, PartialEq, Eq, Structural)]
pub enum LoopAction {
    Nothing,
    /// Clear every track and leave the loop.
    Terminate,
    ReportInitialization,
    /// Reset reverb mix and equalizer preset.
    ResetEngine,
    /// Drop the scene, clear tracks and reset the session state.
    EndSession,
    /// Stop the tracks with the ease-out tween.
    StopTracks,
    /// Create a new scene.
    NewScene,
    Pause,
    Resume,
    StopSceneEmittersAndActors,
    Replacement(ReplacementNotification),
    /// Let the engine carry out the notification itself.
    Forward,
    /// Load the banks again and restart the loop.
    HotReload,
    /// Set the player's equalizer preset.
    SetPreset(Preset),
}

/// Flags the engine loop starts with: loading, muted in background.
pub open spec fn initial_view() -> FlagsView {
    FlagsView {
        loading: true,
        in_menu: false,
        in_game: false,
        paused: false,
        focused: false,
        mute_in_background: true,
    }
}

/// The flags after a notification.
pub open spec fn next_view(f: FlagsView, e: LoopEvent) -> FlagsView {
    match e {
        LoopEvent::SetMuteInBackground { value } => FlagsView { mute_in_background: value, ..f },
        LoopEvent::Session(Session::Start) => FlagsView { loading: true, ..f },
        LoopEvent::Session(Session::BeforeEnd) => FlagsView { in_game: false, ..f },
        LoopEvent::Session(Session::Ready) => FlagsView {
            loading: false,
            in_menu: false,
            in_game: true,
            ..f
        },
        LoopEvent::Session(Session::Pause) => FlagsView { paused: true, ..f },
        LoopEvent::Session(Session::Resume) => FlagsView { paused: false, ..f },
        LoopEvent::SwitchToScenario { .. } => FlagsView { in_menu: true, ..f },
        LoopEvent::EngagementScreen => FlagsView { in_game: false, ..f },
        LoopEvent::UIMenu { opened } => FlagsView { in_menu: opened, ..f },
        _ => f,
    }
}

/// What the engine must do for a notification, given the flags before it.
pub open spec fn action_of(f: FlagsView, e: LoopEvent) -> LoopAction {
    match e {
        LoopEvent::Terminate => LoopAction::Terminate,
        LoopEvent::ReportInitialization => LoopAction::ReportInitialization,
        LoopEvent::Session(Session::BeforeStart) => LoopAction::ResetEngine,
        LoopEvent::Session(Session::BeforeEnd) => if f.in_game {
            LoopAction::EndSession
        } else {
            LoopAction::Nothing
        },
        LoopEvent::Session(Session::Ready) => LoopAction::NewScene,
        LoopEvent::UIInGameNotificationRemove => if f.loading {
            LoopAction::StopTracks
        } else {
            LoopAction::Nothing
        },
        LoopEvent::SwitchToScenario { pause_menu } => if pause_menu {
            LoopAction::Pause
        } else {
            LoopAction::Nothing
        },
        LoopEvent::System(System::PlayerDetach) => LoopAction::StopSceneEmittersAndActors,
        LoopEvent::UIMenu { opened } => if f.in_game {
            if opened {
                LoopAction::Pause
            } else {
                LoopAction::Resume
            }
        } else {
            LoopAction::Nothing
        },
        LoopEvent::Replacement(n) => LoopAction::Replacement(n),
        LoopEvent::EngineWork => LoopAction::Forward,
        LoopEvent::HotReload => LoopAction::HotReload,
        LoopEvent::Preset(p) => LoopAction::SetPreset(p),
        _ => LoopAction::Nothing,
    }
}

impl Flags {
    /// The flags the engine loop starts with.
    pub fn initial() -> (r: Flags)
        ensures
            r.wf(),
            r@ == initial_view(),
    {
        Flags::loading().union(Flags::mute_in_background())
    }
}

/// Handles one notification: updates the loop's flags and tells what the
/// engine must do.
pub fn on_lifecycle(state: &mut Flags, event: LoopEvent) -> (action: LoopAction)
    requires
        old(state).wf(),
    ensures
        final(state).wf(),
        final(state)@ == next_view(old(state)@, event),
        action == action_of(old(state)@, event),
{
    match event {
        LoopEvent::Terminate => LoopAction::Terminate,
        LoopEvent::ReportInitialization => LoopAction::ReportInitialization,
        LoopEvent::SetMuteInBackground { value } => {
            if value != state.contains(Flags::mute_in_background()) {
                state.set(Flags::mute_in_background(), value);
            }
            LoopAction::Nothing
        },
        LoopEvent::Session(Session::BeforeStart) => LoopAction::ResetEngine,
        LoopEvent::Session(Session::Start) => {
            state.set(Flags::loading(), true);
            LoopAction::Nothing
        },
        LoopEvent::Session(Session::End) => LoopAction::Nothing,
        LoopEvent::Session(Session::BeforeEnd) => {
            if state.contains(Flags::in_game()) {
                state.set(Flags::in_game(), false);
                LoopAction::EndSession
            } else {
                LoopAction::Nothing
            }
        },
        LoopEvent::UIInGameNotificationRemove => {
            if state.contains(Flags::loading()) {
                LoopAction::StopTracks
            } else {
                LoopAction::Nothing
            }
        },
        LoopEvent::Session(Session::Ready) => {
            state.set(Flags::loading(), false);
            state.set(Flags::in_menu(), false);
            state.set(Flags::in_game(), true);
            LoopAction::NewScene
        },
        LoopEvent::Session(Session::Pause) => {
            state.set(Flags::paused(), true);
            LoopAction::Nothing
        },
        LoopEvent::Session(Session::Resume) => {
            state.set(Flags::paused(), false);
            LoopAction::Nothing
        },
        LoopEvent::SwitchToScenario { pause_menu } => {
            state.set(Flags::in_menu(), true);
            if pause_menu {
                LoopAction::Pause
            } else {
                LoopAction::Nothing
            }
        },
        LoopEvent::EngagementScreen => {
            state.set(Flags::in_game(), false);
            LoopAction::Nothing
        },
        LoopEvent::System(System::PlayerDetach) => LoopAction::StopSceneEmittersAndActors,
        LoopEvent::System(_) => LoopAction::Nothing,
        LoopEvent::UIMenu { opened } => {
            state.set(Flags::in_menu(), opened);
            if state.contains(Flags::in_game()) {
                if opened {
                    LoopAction::Pause
                } else {
                    LoopAction::Resume
                }
            } else {
                LoopAction::Nothing
            }
        },
        LoopEvent::Replacement(n) => LoopAction::Replacement(n),
        LoopEvent::EngineWork => LoopAction::Forward,
        LoopEvent::HotReload => LoopAction::HotReload,
        LoopEvent::Preset(p) => LoopAction::SetPreset(p),
        LoopEvent::Ignored => LoopAction::Nothing,
    }
}

/// The focus part of the loop: when muting in background is on, losing
/// focus mutes the engine (`Some(true)`) and regaining it unmutes it
/// (`Some(false)`).
pub open spec fn focus_change(f: FlagsView, in_foreground: bool) -> Option<bool> {
    if !f.mute_in_background {
        None
    } else if !in_foreground {
        if f.focused {
            Some(true)
        } else {
            None
        }
    } else if !f.focused {
        Some(false)
    } else {
        None
    }
}

/// Tracks whether the game window has focus; returns whether the engine
/// must be muted (`Some(true)`) or unmuted (`Some(false)`).
pub fn on_focus(state: &mut Flags, in_foreground: bool) -> (mute: Option<bool>)
    requires
        old(state).wf(),
    ensures
        final(state).wf(),
        mute == focus_change(old(state)@, in_foreground),
        final(state)@ == (match mute {
            Some(m) => FlagsView { focused: !m, ..old(state)@ },
            None => old(state)@,
        }),
{
    if state.contains(Flags::mute_in_background()) {
        if !in_foreground {
            if state.contains(Flags::focused()) {
                state.set(Flags::focused(), false);
                return Some(true);
            }
        } else if !state.contains(Flags::focused()) {
            state.set(Flags::focused(), true);
            return Some(false);
        }
    }
    None
}

/// Whether the loop synchronizes the scene this round: flags allow it,
/// some emitter or actor exists, and the synchronization tick has come.
pub fn should_sync_scene(state: &Flags, any_emitter: bool, any_actor: bool, tick: bool) -> (r: bool)
    ensures
        r == (state@.in_game && !state@.loading && !state@.in_menu && !state@.paused && (
        any_emitter || any_actor) && tick),
{
    state.should_sync() && (any_emitter || any_actor) && tick
}

/// Whether the loop reclaims finished sounds this round.
pub fn should_reclaim(any_handle: bool, tick: bool) -> (r: bool)
    ensures
        r == (any_handle && tick),
{
    any_handle && tick
}

/// The scene is synchronized only when the flags allow it.
pub open spec fn syncs(f: FlagsView) -> bool {
    f.in_game && !f.loading && !f.in_menu && !f.paused
}

/// Only a notification about muting in background changes that setting,
/// and no notification changes focus.
pub proof fn law_loop_keeps_focus_settings(f: FlagsView, e: LoopEvent)
    ensures
        next_view(f, e).focused == f.focused,
        !(e is SetMuteInBackground) ==> next_view(f, e).mute_in_background == f.mute_in_background,
{
}

/// Once the session is ready the scene is synchronized, unless the game
/// is paused.
pub proof fn law_ready_session_syncs(f: FlagsView)
    ensures
        syncs(next_view(f, LoopEvent::Session(Session::Ready))) == !f.paused,
{
}

/// Loading, leaving the session, the engagement screen, a menu scenario
/// and pausing all stop synchronization.
pub proof fn law_sync_stops(f: FlagsView)
    ensures
        !syncs(next_view(f, LoopEvent::Session(Session::Start))),
        !syncs(next_view(f, LoopEvent::Session(Session::BeforeEnd))),
        !syncs(next_view(f, LoopEvent::EngagementScreen)),
        !syncs(next_view(f, LoopEvent::Session(Session::Pause))),
        forall|p: bool| !syncs(#[trigger] next_view(f, LoopEvent::SwitchToScenario { pause_menu: p })),
        !syncs(next_view(f, LoopEvent::UIMenu { opened: true })),
{
}

/// Closing the in-game menu resumes the engine exactly when in game,
/// opening it pauses it.
pub proof fn law_menu_pauses_and_resumes(f: FlagsView)
    ensures
        f.in_game ==> action_of(f, LoopEvent::UIMenu { opened: true }) == LoopAction::Pause,
        f.in_game ==> action_of(f, LoopEvent::UIMenu { opened: false }) == LoopAction::Resume,
        !f.in_game ==> action_of(f, LoopEvent::UIMenu { opened: true }) == LoopAction::Nothing,
{
}

/// A paused game resumed gets the flags it had, pause aside.
pub proof fn law_pause_then_resume(f: FlagsView)
    ensures
        next_view(next_view(f, LoopEvent::Session(Session::Pause)), LoopEvent::Session(Session::Resume))
            == (FlagsView { paused: false, ..f }),
{
}

/// Focus changes alternate: after muting, the next change can only unmute,
/// and after unmuting it can only mute.
pub proof fn law_focus_alternates(f: FlagsView, a: bool, b: bool)
    ensures
        focus_change(f, a) == Some(true) ==> focus_change((FlagsView { focused: false, ..f }), b)
            != Some(true),
        focus_change(f, a) == Some(false) ==> focus_change((FlagsView { focused: true, ..f }), b)
            != Some(false),
        !f.mute_in_background ==> focus_change(f, a) is None,
{
}

/// The most commands the loop carries out in one round.
pub const COMMANDS_PER_ROUND: usize = 8;

/// Takes this round's commands off the front of the queue: the first
/// eight, in order, or all of them when fewer wait; the others wait, in
/// order, for a later round.
pub fn take_batch<C>(queue: &mut Vec<C>) -> (batch: Vec<C>)
    ensures
        batch@.len() == (if old(queue)@.len() < COMMANDS_PER_ROUND { old(queue)@.len() } else { COMMANDS_PER_ROUND as nat }),
        batch@ == old(queue)@.take(batch@.len() as int),
        final(queue)@ == old(queue)@.skip(batch@.len() as int),
{
    let ghost q0 = queue@;
    let mut batch: Vec<C> = Vec::new();
    while batch.len() < COMMANDS_PER_ROUND && queue.len() > 0
        invariant
            batch@.len() <= COMMANDS_PER_ROUND,
            batch@.len() <= q0.len(),
            batch@ == q0.take(batch@.len() as int),
            queue@ == q0.skip(batch@.len() as int),
        decreases queue@.len(),
    {
        let ghost k = batch@.len() as int;
        let c = queue.remove(0);
        batch.push(c);
        assert(batch@ =~= q0.take(k + 1));
        assert(queue@ =~= q0.skip(k + 1));
    }
    batch
}

} // verus!
