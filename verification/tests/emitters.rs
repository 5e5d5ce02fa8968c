use audioware::engine::emitters::Emitters;
use audioware::engine::handles::Handles;
use audioware::names::{CName, EntityId};

fn e(h: u64) -> EntityId {
    EntityId { hash: h }
}

fn t(h: u64) -> CName {
    CName::new(h)
}

#[test]
fn added_emitter_is_registered() {
    let mut m: Emitters<&str> = Emitters::new();
    assert!(m.is_empty());
    assert!(m.add_emitter("radio", e(1), t(10), None, false));
    assert!(m.exists_tag(&e(1), &t(10)));
    assert!(m.is_registered_emitter(e(1), Some(t(10))));
    assert!(m.is_registered_emitter(e(1), None));
    assert!(!m.is_registered_emitter(e(2), None));
    assert_eq!(m.emitters_count(), 1);
}

#[test]
fn adding_a_known_tag_changes_nothing() {
    let mut m: Emitters<&str> = Emitters::new();
    assert!(m.add_emitter("a", e(1), t(10), None, false));
    assert!(!m.add_emitter("b", e(1), t(10), Some(t(5)), true));
    assert_eq!(m.emitters_count(), 1);
    assert!(m.add_emitter("c", e(1), t(11), None, false));
    assert_eq!(m.emitters_count(), 2);
}

#[test]
fn unregistering_the_last_tag_forgets_the_entity() {
    let mut m: Emitters<&str> = Emitters::new();
    m.add_emitter("a", e(1), t(10), None, false);
    m.add_emitter("b", e(1), t(11), None, false);
    assert!(m.unregister_emitter(&e(1), &t(10)));
    assert!(!m.exists_tag(&e(1), &t(10)));
    assert!(m.exists_tag(&e(1), &t(11)));
    assert!(!m.is_registered_emitter(e(1), Some(t(10))));
    assert!(m.unregister_emitter(&e(1), &t(11)));
    assert!(m.is_empty());
    assert!(!m.unregister_emitter(&e(1), &t(11)));
}

#[test]
fn unregistering_an_unknown_tag_of_a_known_entity_reports_true() {
    let mut m: Emitters<&str> = Emitters::new();
    m.add_emitter("a", e(1), t(10), None, false);
    assert!(m.unregister_emitter(&e(1), &t(99)));
    assert!(m.exists_tag(&e(1), &t(10)));
}

#[test]
fn death_keeps_only_persisting_slots() {
    let mut m: Emitters<&str> = Emitters::new();
    m.add_emitter("a", e(1), t(10), None, false);
    m.add_emitter("b", e(1), t(11), None, true);
    m.add_emitter("c", e(2), t(10), None, false);
    let stopped = m.on_emitter_dies(&e(1));
    assert_eq!(stopped.len(), 1);
    assert_eq!(stopped[0].handle, "a");
    assert!(!m.exists_tag(&e(1), &t(10)));
    assert!(m.exists_tag(&e(1), &t(11)));
    assert!(!m.is_registered_emitter(e(1), None));
    assert!(m.is_registered_emitter(e(2), Some(t(10))));
    let gone = m.remove_entity(&e(1)).unwrap();
    assert!(gone.marked_for_death);
    assert_eq!(gone.slots.len(), 1);
    assert!(m.remove_entity(&e(1)).is_none());
}

#[test]
fn death_without_persisting_slots_forgets_the_entity() {
    let mut m: Emitters<&str> = Emitters::new();
    m.add_emitter("a", e(1), t(10), None, false);
    let stopped = m.on_emitter_dies(&e(1));
    assert_eq!(stopped.len(), 1);
    assert!(m.is_empty());
    assert_eq!(m.emitters_count(), 0);
}

#[test]
fn clear_hands_back_every_entity() {
    let mut m: Emitters<&str> = Emitters::new();
    m.add_emitter("a", e(1), t(10), None, false);
    m.add_emitter("b", e(2), t(10), None, false);
    let all = m.clear();
    assert_eq!(all.len(), 2);
    assert!(m.is_empty());
    assert_eq!(m.emitters_count(), 0);
}

#[test]
fn death_hands_back_the_handles_that_stop() {
    let mut m: Emitters<&str> = Emitters::new();
    m.add_emitter("keep", e(1), t(10), None, true);
    m.add_emitter("stop", e(1), t(11), None, false);
    m.add_emitter("also", e(1), t(12), Some(t(3)), false);
    let stopped = m.on_emitter_dies(&e(1));
    let handles: Vec<&str> = stopped.iter().map(|s| s.handle).collect();
    assert_eq!(handles, vec!["stop", "also"]);
    assert_eq!(stopped[1].emitter_name, Some(t(3)));
    // the slot that persists is still held, with its handle
    let entry = m.remove_entity(&e(1)).expect("the entity keeps its persisting slot");
    assert!(entry.marked_for_death);
    assert_eq!(entry.slots.len(), 1);
    assert_eq!(entry.slots[0].handle, "keep");
    assert!(m.is_empty());
}

#[test]
fn clearing_hands_back_every_slot() {
    let mut m: Emitters<u32> = Emitters::new();
    m.add_emitter(7, e(1), t(10), None, false);
    m.add_emitter(8, e(2), t(10), None, false);
    let all = m.clear();
    assert_eq!(all.len(), 2);
    assert_eq!(all[0].slots[0].handle, 7);
    assert_eq!(all[1].slots[0].handle, 8);
    assert_eq!(m.emitters_count(), 0);
}

#[test]
fn handles_of_an_event_are_found_and_stopped_ones_reclaimed() {
    let mut h: Handles<u32> = Handles::new();
    h.store(t(1), 100, true);
    h.store(t(2), 200, false);
    h.store(t(1), 300, false);
    assert_eq!(h.stop_by_event_name(t(1)), vec![0, 2]);
    assert_eq!(h.stop_by_event_name(t(3)), Vec::<usize>::new());
    assert_eq!(h.dilated(), vec![0]);
    *h.handle_mut(1) += 5;
    h.reclaim(&vec![true, false, true]);
    assert_eq!(h.len(), 1);
    assert_eq!(*h.handle_mut(0), 205);
    assert_eq!(h.stop_by_event_name(t(2)), vec![0]);
}

#[test]
fn finished_entities_are_those_marked_whose_sounds_ended() {
    let mut m: Emitters<u32> = Emitters::new();
    m.add_emitter(1, e(1), t(10), None, true);
    m.add_emitter(2, e(2), t(10), None, true);
    m.add_emitter(3, e(3), t(10), None, false);
    m.on_emitter_dies(&e(1));
    m.on_emitter_dies(&e(2));
    assert_eq!(m.finished(&vec![false, true, false]), vec![e(1)]);
    assert_eq!(m.finished(&vec![false, false, false]), vec![e(1), e(2)]);
}
