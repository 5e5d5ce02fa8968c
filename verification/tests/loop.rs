use audioware::abi::lifecycle::{
    Audioware, GameSessionLifecycle, GameSystemLifecycle, HotReload, ReplacementNotification, Session, System,
};
use audioware::engine::flags::Flags;
use audioware::engine::queue::{on_focus, on_lifecycle, should_reclaim, should_sync_scene, take_batch, LoopAction, LoopEvent, COMMANDS_PER_ROUND};
use audioware::names::{CName, EventName};

#[test]
fn initial_flags_are_loading_and_muted_in_background() {
    let f = Flags::initial();
    assert!(f.contains(Flags::loading()));
    assert!(f.contains(Flags::mute_in_background()));
    assert!(!f.contains(Flags::in_game()));
    assert!(!f.should_sync());
}

#[test]
fn flags_set_and_union() {
    let mut f = Flags::empty();
    f.set(Flags::paused(), true);
    assert!(f.contains(Flags::paused()));
    assert!(f.intersects(Flags::paused().union(Flags::in_menu())));
    f.set(Flags::paused(), false);
    assert!(!f.contains(Flags::paused()));
    assert!(!f.intersects(Flags::paused()));
}

#[test]
fn ready_session_starts_syncing() {
    let mut f = Flags::initial();
    assert_eq!(on_lifecycle(&mut f, LoopEvent::Session(Session::Start)), LoopAction::Nothing);
    assert_eq!(on_lifecycle(&mut f, LoopEvent::Session(Session::Ready)), LoopAction::NewScene);
    assert!(f.should_sync());
    assert!(should_sync_scene(&f, true, false, true));
    assert!(!should_sync_scene(&f, false, false, true));
    assert!(!should_sync_scene(&f, true, true, false));
}

#[test]
fn pause_stops_syncing_and_resume_restores_it() {
    let mut f = Flags::initial();
    on_lifecycle(&mut f, LoopEvent::Session(Session::Ready));
    assert_eq!(on_lifecycle(&mut f, LoopEvent::Session(Session::Pause)), LoopAction::Nothing);
    assert!(!f.should_sync());
    on_lifecycle(&mut f, LoopEvent::Session(Session::Resume));
    assert!(f.should_sync());
}

#[test]
fn menu_in_game_pauses_and_resumes() {
    let mut f = Flags::initial();
    on_lifecycle(&mut f, LoopEvent::Session(Session::Ready));
    assert_eq!(on_lifecycle(&mut f, LoopEvent::UIMenu { opened: true }), LoopAction::Pause);
    assert!(!f.should_sync());
    assert_eq!(on_lifecycle(&mut f, LoopEvent::UIMenu { opened: false }), LoopAction::Resume);
    assert!(f.should_sync());
}

#[test]
fn menu_outside_game_does_nothing() {
    let mut f = Flags::initial();
    assert_eq!(on_lifecycle(&mut f, LoopEvent::UIMenu { opened: true }), LoopAction::Nothing);
}

#[test]
fn session_end_only_ends_a_game() {
    let mut f = Flags::initial();
    assert_eq!(on_lifecycle(&mut f, LoopEvent::Session(Session::BeforeEnd)), LoopAction::Nothing);
    on_lifecycle(&mut f, LoopEvent::Session(Session::Ready));
    assert_eq!(on_lifecycle(&mut f, LoopEvent::Session(Session::BeforeEnd)), LoopAction::EndSession);
    assert!(!f.contains(Flags::in_game()));
}

#[test]
fn loading_screen_notification_stops_tracks() {
    let mut f = Flags::initial();
    assert_eq!(on_lifecycle(&mut f, LoopEvent::UIInGameNotificationRemove), LoopAction::StopTracks);
    on_lifecycle(&mut f, LoopEvent::Session(Session::Ready));
    assert_eq!(on_lifecycle(&mut f, LoopEvent::UIInGameNotificationRemove), LoopAction::Nothing);
}

#[test]
fn pause_menu_scenario_pauses() {
    let mut f = Flags::initial();
    assert_eq!(on_lifecycle(&mut f, LoopEvent::SwitchToScenario { pause_menu: true }), LoopAction::Pause);
    assert!(f.contains(Flags::in_menu()));
    assert_eq!(on_lifecycle(&mut f, LoopEvent::SwitchToScenario { pause_menu: false }), LoopAction::Nothing);
}

#[test]
fn other_notifications() {
    let mut f = Flags::initial();
    assert_eq!(on_lifecycle(&mut f, LoopEvent::Terminate), LoopAction::Terminate);
    assert_eq!(on_lifecycle(&mut f, LoopEvent::Session(Session::BeforeStart)), LoopAction::ResetEngine);
    assert_eq!(on_lifecycle(&mut f, LoopEvent::System(System::PlayerDetach)), LoopAction::StopSceneEmittersAndActors);
    assert_eq!(on_lifecycle(&mut f, LoopEvent::System(System::Attach)), LoopAction::Nothing);
    assert_eq!(on_lifecycle(&mut f, LoopEvent::EngineWork), LoopAction::Forward);
    assert_eq!(on_lifecycle(&mut f, LoopEvent::HotReload), LoopAction::HotReload);
    let n = ReplacementNotification::Mute(EventName(CName::new(5)));
    assert_eq!(on_lifecycle(&mut f, LoopEvent::Replacement(n)), LoopAction::Replacement(n));
}

#[test]
fn focus_mutes_and_unmutes_in_turn() {
    let mut f = Flags::initial();
    assert_eq!(on_focus(&mut f, true), Some(false));
    assert_eq!(on_focus(&mut f, true), None);
    assert_eq!(on_focus(&mut f, false), Some(true));
    assert_eq!(on_focus(&mut f, false), None);
    assert_eq!(on_focus(&mut f, true), Some(false));
}

#[test]
fn focus_ignored_when_not_muting_in_background() {
    let mut f = Flags::initial();
    on_lifecycle(&mut f, LoopEvent::SetMuteInBackground { value: false });
    assert!(!f.contains(Flags::mute_in_background()));
    assert_eq!(on_focus(&mut f, false), None);
    assert_eq!(on_focus(&mut f, true), None);
}

#[test]
fn reclaim_needs_handles_and_tick() {
    assert!(should_reclaim(true, true));
    assert!(!should_reclaim(true, false));
    assert!(!should_reclaim(false, true));
}

#[test]
fn lifecycle_hooks_make_loop_events() {
    assert_eq!(<Audioware as GameSessionLifecycle>::on_game_session_before_start(), LoopEvent::Session(Session::BeforeStart));
    assert_eq!(<Audioware as GameSessionLifecycle>::on_game_session_start(), LoopEvent::Session(Session::Start));
    assert_eq!(<Audioware as GameSessionLifecycle>::on_game_session_ready(), LoopEvent::Session(Session::Ready));
    assert_eq!(<Audioware as GameSessionLifecycle>::on_game_session_pause(), LoopEvent::Session(Session::Pause));
    assert_eq!(<Audioware as GameSessionLifecycle>::on_game_session_resume(), LoopEvent::Session(Session::Resume));
    assert_eq!(<Audioware as GameSessionLifecycle>::on_game_session_before_end(), LoopEvent::Session(Session::BeforeEnd));
    assert_eq!(<Audioware as GameSessionLifecycle>::on_game_session_end(), LoopEvent::Session(Session::End));
    assert_eq!(<Audioware as GameSystemLifecycle>::on_game_system_attach(), LoopEvent::System(System::Attach));
    assert_eq!(<Audioware as GameSystemLifecycle>::on_game_system_detach(), LoopEvent::System(System::Detach));
    assert_eq!(<Audioware as GameSystemLifecycle>::on_game_system_player_attach(), LoopEvent::System(System::PlayerAttach));
    assert_eq!(<Audioware as GameSystemLifecycle>::on_game_system_player_detach(), LoopEvent::System(System::PlayerDetach));
    assert_eq!(<Audioware as HotReload>::hot_reload(), LoopEvent::HotReload);
}

#[test]
fn contains_and_intersects_read_every_bit() {
    let f = Flags { bits: 0b1100_0001 };
    assert!(f.contains(Flags { bits: 0b1000_0000 }));
    assert!(!f.contains(Flags { bits: 0b0010_0000 }));
    assert!(f.intersects(Flags { bits: 0b0100_0000 }));
    assert!(!Flags::empty().intersects(Flags { bits: 0b1000_0000 }));
}

#[test]
fn a_round_takes_at_most_eight_commands() {
    let mut q: Vec<u32> = (0..11).collect();
    let batch = take_batch(&mut q);
    assert_eq!(batch, (0..8).collect::<Vec<u32>>());
    assert_eq!(q, vec![8, 9, 10]);
    let batch = take_batch(&mut q);
    assert_eq!(batch, vec![8, 9, 10]);
    assert!(q.is_empty());
    assert!(take_batch(&mut q).is_empty());
    assert_eq!(COMMANDS_PER_ROUND, 8);
}

#[test]
fn game_system_events_are_described() {
    assert_eq!(System::Attach.describe(), "game system attach");
    assert_eq!(System::PlayerDetach.describe(), "game system player detach");
}

#[test]
fn a_preset_change_is_forwarded_whatever_the_flags() {
    let mut f = Flags::initial();
    let before = f;
    assert_eq!(
        on_lifecycle(&mut f, LoopEvent::Preset(audioware::abi::types::Preset::OnThePhone)),
        LoopAction::SetPreset(audioware::abi::types::Preset::OnThePhone)
    );
    assert_eq!(f, before);
}
