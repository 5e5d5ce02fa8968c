use audioware::abi::lifecycle::ReplacementNotification;
use audioware::engine::mutes::{AudioEventManager, EventHookTypes, Replacements};
use audioware::engine::replacement::Mute;
use audioware::names::{CName, EventName};

fn name(h: u64) -> EventName {
    EventName(CName::new(h))
}

fn listed(r: &Replacements, n: EventName) -> bool {
    r.entries().iter().any(|e| e.0 == n)
}

const PLAY: EventHookTypes = EventHookTypes { bits: 1 };
const STOP: EventHookTypes = EventHookTypes { bits: 2 };

#[test]
fn hook_types_bits() {
    assert_eq!(EventHookTypes::all().bits, 0x3fff);
    assert!(EventHookTypes::all().is_all());
    assert!(!PLAY.is_all());
    assert!(EventHookTypes { bits: 0x4000 }.contains_unknown_bits());
    assert!(!PLAY.contains_unknown_bits());
    assert!(EventHookTypes { bits: 3 }.contains(PLAY));
    assert!(!PLAY.contains(STOP));
}

#[test]
fn mute_lists_event_for_all_hooks() {
    let mut r = Replacements::new();
    assert!(r.update_mutes(vec![ReplacementNotification::Mute(name(1))]));
    assert!(listed(&r, name(1)));
    assert!(r.is_muted(name(1)));
    // only the exact hooks of the entry answer
    assert!(!r.is_specific_muted(name(1), PLAY));
    assert!(r.is_specific_muted(name(1), EventHookTypes::all()));
    assert_eq!(r.entries().len(), 1);
}

#[test]
fn muting_twice_publishes_once() {
    let mut r = Replacements::new();
    assert!(r.update_mutes(vec![ReplacementNotification::Mute(name(1))]));
    assert!(!r.update_mutes(vec![ReplacementNotification::Mute(name(1))]));
    assert_eq!(r.entries().len(), 1);
}

#[test]
fn mute_specific_adds_hooks() {
    let mut r = Replacements::new();
    assert!(r.update_mutes(vec![ReplacementNotification::MuteSpecific(name(2), PLAY)]));
    assert!(r.is_specific_muted(name(2), PLAY));
    assert!(!r.is_specific_muted(name(2), STOP));
    assert!(r.update_mutes(vec![ReplacementNotification::MuteSpecific(name(2), STOP)]));
    assert!(r.is_specific_muted(name(2), EventHookTypes { bits: 3 }));
    assert_eq!(r.entries()[0], (name(2), EventHookTypes { bits: 3 }));
}

#[test]
fn unmute_unlists_event() {
    let mut r = Replacements::new();
    r.update_mutes(vec![ReplacementNotification::Mute(name(1)), ReplacementNotification::Mute(name(2))]);
    assert!(r.update_mutes(vec![ReplacementNotification::Unmute(name(1))]));
    assert!(!listed(&r, name(1)));
    assert!(listed(&r, name(2)));
    assert!(!r.update_mutes(vec![ReplacementNotification::Unmute(name(1))]));
}

#[test]
fn unmute_specific_of_shared_hooks_keeps_entry_without_publishing() {
    let mut r = Replacements::new();
    r.update_mutes(vec![ReplacementNotification::MuteSpecific(name(3), EventHookTypes { bits: 3 })]);
    // the entry keeps its place, so nothing is published and it stays as it was
    assert!(!r.update_mutes(vec![ReplacementNotification::UnmuteSpecific(name(3), PLAY)]));
    assert_eq!(r.entries()[0], (name(3), EventHookTypes { bits: 3 }));
}

#[test]
fn unmute_specific_of_other_hooks_drops_entry() {
    let mut r = Replacements::new();
    r.update_mutes(vec![ReplacementNotification::MuteSpecific(name(3), PLAY)]);
    assert!(r.update_mutes(vec![ReplacementNotification::UnmuteSpecific(name(3), STOP)]));
    assert!(!listed(&r, name(3)));
}

#[test]
fn last_notification_decides_publishing() {
    let mut r = Replacements::new();
    let published = r.update_mutes(vec![
        ReplacementNotification::Mute(name(1)),
        ReplacementNotification::Unmute(name(9)),
    ]);
    assert!(!published);
    assert!(!listed(&r, name(1)));
}

#[test]
fn from_entries_refuses_duplicates() {
    assert!(Replacements::from_entries(vec![(name(1), PLAY), (name(1), STOP)]).is_none());
    let r = Replacements::from_entries(vec![(name(1), PLAY), (name(2), STOP)]).unwrap();
    assert!(r.is_specific_muted(name(2), STOP));
}

#[test]
fn manager_validates_requests() {
    let m = AudioEventManager;
    assert_eq!(m.mute(CName::undefined()), None);
    assert_eq!(m.mute(CName::new(1)), Some(ReplacementNotification::Mute(name(1))));
    assert_eq!(m.unmute(CName::new(1)), Some(ReplacementNotification::Unmute(name(1))));
    assert_eq!(m.mute_specific(CName::new(1), EventHookTypes { bits: 0x8000 }), None);
    assert_eq!(m.mute_specific(CName::new(1), PLAY), Some(ReplacementNotification::MuteSpecific(name(1), PLAY)));
    assert_eq!(m.unmute_specific(CName::undefined(), PLAY), None);
    assert_eq!(m.unmute_specific(CName::new(1), PLAY), Some(ReplacementNotification::UnmuteSpecific(name(1), PLAY)));
}

#[test]
fn manager_reads_mutes() {
    let m = AudioEventManager;
    let mut r = Replacements::new();
    r.update_mutes(vec![ReplacementNotification::MuteSpecific(name(4), PLAY)]);
    // muted for one hook only: not muted as a whole
    assert!(!m.is_muted(&r, CName::new(4)));
    assert!(m.is_specific_muted(&r, CName::new(4), PLAY));
    assert!(!m.is_specific_muted(&r, CName::new(4), EventHookTypes { bits: 3 }));
    assert!(!m.is_specific_muted(&r, CName::new(4), EventHookTypes { bits: 0x8001 }));
    r.update_mutes(vec![ReplacementNotification::MuteSpecific(name(4), EventHookTypes { bits: 0x3ffe })]);
    assert!(m.is_muted(&r, CName::new(4)));
    assert!(!m.is_muted(&r, CName::undefined()));
    assert!(!m.is_specific_muted(&r, CName::new(4), PLAY));
}

#[test]
fn mute_trait_on_replacements() {
    let mut r = Replacements::new();
    r.mute(name(1));
    assert!(r.is_muted(name(1)));
    r.unmute(name(1));
    assert!(!Mute::is_muted(&r, name(1)));
    r.mute_specific(name(2), PLAY);
    assert!(Mute::is_specific_muted(&r, name(2), PLAY));
    r.mute_specific(name(2), STOP);
    assert!(Mute::is_specific_muted(&r, name(2), EventHookTypes { bits: 3 }));
    r.unmute_specific(name(2), PLAY);
    assert!(Mute::is_specific_muted(&r, name(2), STOP));
    assert_eq!(r.entries().len(), 1);
}
