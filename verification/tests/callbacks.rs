use audioware::abi::callback::{Callback, FireCallback, FirePlayCallback, FireStopCallback, ScriptRef};
use audioware::abi::types::{AnyTarget, EventActionType, WwiseId};
use audioware::engine::callbacks::{AudioEventCallbackSystem, HandlerCounter, Key};
use audioware::engine::mutes::EventHookTypes;
use audioware::names::{CName, ClassName, EntityId, EventName, FunctionName};

fn name(h: u64) -> EventName {
    EventName(CName::new(h))
}

fn register(id: usize, event: u64) -> Callback {
    Callback::RegisterFunction {
        event_name: name(event),
        target: ScriptRef(100),
        function_name: FunctionName(CName::new(200)),
        id,
    }
}

fn play(event: u64, entity: u64, emitter: u64, wwise: u32) -> FireCallback {
    FireCallback::Play(FirePlayCallback {
        event_name: name(event),
        event_type: EventActionType::Play,
        entity_id: EntityId { hash: entity },
        emitter_name: CName::new(emitter),
        wwise_id: WwiseId(wwise),
    })
}

#[test]
fn register_then_registered() {
    let mut s = AudioEventCallbackSystem::new();
    assert!(s.update_callbacks(vec![register(1, 10)]));
    assert!(s.is_registered(1));
    assert!(!s.is_registered(2));
    assert!(s.any_callback(name(10), EventActionType::Play));
    assert!(!s.any_callback(name(11), EventActionType::Play));
}

#[test]
fn registering_a_known_id_changes_nothing() {
    let mut s = AudioEventCallbackSystem::new();
    s.update_callbacks(vec![register(1, 10)]);
    assert!(!s.update_callbacks(vec![register(1, 11)]));
    assert!(!s.any_callback(name(11), EventActionType::Play));
}

#[test]
fn static_registration() {
    let mut s = AudioEventCallbackSystem::new();
    assert!(s.update_callbacks(vec![Callback::RegisterStaticFunction {
        event_name: name(10),
        class_name: ClassName(CName::new(7)),
        function_name: FunctionName(CName::new(8)),
        id: 3,
    }]));
    assert!(s.is_registered(3));
}

#[test]
fn unregister_then_unknown() {
    let mut s = AudioEventCallbackSystem::new();
    s.update_callbacks(vec![register(1, 10), register(2, 10)]);
    assert!(s.update_callbacks(vec![Callback::Unregister { id: 1 }]));
    assert!(!s.is_registered(1));
    assert!(s.is_registered(2));
    assert!(!s.update_callbacks(vec![Callback::Unregister { id: 1 }]));
}

#[test]
fn fired_events_reach_listeners_in_order() {
    let mut s = AudioEventCallbackSystem::new();
    s.update_callbacks(vec![register(2, 10), register(1, 10), register(3, 11)]);
    assert_eq!(s.dispatch(&play(10, 5, 6, 7)), vec![Key(2), Key(1)]);
    assert_eq!(s.dispatch(&play(12, 5, 6, 7)), Vec::<Key>::new());
}

#[test]
fn filters_narrow_fired_events() {
    let mut s = AudioEventCallbackSystem::new();
    s.update_callbacks(vec![
        register(1, 10),
        Callback::Filter { id: 1, target: AnyTarget::Id(EntityId { hash: 5 }), add: true },
        register(2, 10),
        Callback::Filter { id: 2, target: AnyTarget::Wwise(WwiseId(99)), add: true },
    ]);
    assert_eq!(s.dispatch(&play(10, 5, 6, 7)), vec![Key(1)]);
    assert_eq!(s.dispatch(&play(10, 4, 6, 99)), vec![Key(2)]);
    assert_eq!(s.dispatch(&play(10, 4, 6, 7)), Vec::<Key>::new());
}

#[test]
fn hook_and_emitter_filters() {
    let mut s = AudioEventCallbackSystem::new();
    s.update_callbacks(vec![
        register(1, 10),
        Callback::Filter { id: 1, target: AnyTarget::Hook(EventHookTypes { bits: 0x8 }), add: true },
        register(2, 10),
        Callback::Filter { id: 2, target: AnyTarget::EmitterName(CName::new(6)), add: true },
    ]);
    let stop = FireCallback::Stop(FireStopCallback {
        event_name: name(10),
        event_type: EventActionType::StopSound,
        entity_id: EntityId { hash: 5 },
        wwise_id: WwiseId(1),
    });
    assert_eq!(s.dispatch(&stop), vec![Key(1)]);
    assert_eq!(s.dispatch(&play(10, 5, 6, 7)), vec![Key(2)]);
}

#[test]
fn type_filter_narrows_any_callback() {
    let mut s = AudioEventCallbackSystem::new();
    s.update_callbacks(vec![
        register(1, 10),
        Callback::Filter { id: 1, target: AnyTarget::Type(EventActionType::StopSound), add: true },
    ]);
    assert!(s.any_callback(name(10), EventActionType::StopSound));
    assert!(!s.any_callback(name(10), EventActionType::Play));
}

#[test]
fn removing_the_last_filter_drops_the_callback() {
    let mut s = AudioEventCallbackSystem::new();
    let t = AnyTarget::Wwise(WwiseId(3));
    s.update_callbacks(vec![register(1, 10), Callback::Filter { id: 1, target: t, add: true }]);
    assert!(!s.update_callbacks(vec![Callback::Filter { id: 1, target: t, add: true }]));
    assert!(s.update_callbacks(vec![Callback::Filter { id: 1, target: t, add: false }]));
    assert!(!s.is_registered(1));
}

#[test]
fn reset_keeps_sticky_callbacks_only() {
    let mut s = AudioEventCallbackSystem::new();
    s.update_callbacks(vec![register(1, 10), register(2, 10), Callback::SetLifetime { id: 2, sticky: true }]);
    assert!(s.reset_callbacks());
    assert!(!s.is_registered(1));
    assert!(s.is_registered(2));
    assert!(!s.reset_callbacks());
}

#[test]
fn setting_the_same_lifetime_changes_nothing() {
    let mut s = AudioEventCallbackSystem::new();
    s.update_callbacks(vec![register(1, 10)]);
    assert!(!s.update_callbacks(vec![Callback::SetLifetime { id: 1, sticky: false }]));
    assert!(s.update_callbacks(vec![Callback::SetLifetime { id: 1, sticky: true }]));
}

#[test]
fn fire_callback_accessors() {
    let f = play(10, 5, 6, 7);
    assert_eq!(f.event_name(), name(10));
    assert_eq!(f.event_type(), EventActionType::Play);
    assert_eq!(f.entity_id(), Some(EntityId { hash: 5 }));
    assert_eq!(f.emitter_name(), Some(CName::new(6)));
    assert_eq!(f.wwise_id(), WwiseId(7));
    assert_eq!(f.event_hook_type(), EventHookTypes { bits: 1 });
}

#[test]
fn registration_requests_draw_handler_ids() {
    let mut c = HandlerCounter::new();
    let r = AudioEventCallbackSystem::register_callback(&mut c, CName::new(10), Some(ScriptRef(1)), CName::new(20));
    assert_eq!(
        r,
        Some(Callback::RegisterFunction {
            event_name: name(10),
            target: ScriptRef(1),
            function_name: FunctionName(CName::new(20)),
            id: 0,
        })
    );
    assert_eq!(c.next, 1);
    assert_eq!(AudioEventCallbackSystem::register_callback(&mut c, CName::undefined(), Some(ScriptRef(1)), CName::new(20)), None);
    assert_eq!(AudioEventCallbackSystem::register_callback(&mut c, CName::new(10), None, CName::new(20)), None);
    assert_eq!(AudioEventCallbackSystem::register_callback(&mut c, CName::new(10), Some(ScriptRef(1)), CName::undefined()), None);
    assert_eq!(c.next, 1);
    let s = AudioEventCallbackSystem::register_static_callback(&mut c, CName::new(10), CName::new(30), CName::new(20));
    assert_eq!(
        s,
        Some(Callback::RegisterStaticFunction {
            event_name: name(10),
            class_name: ClassName(CName::new(30)),
            function_name: FunctionName(CName::new(20)),
            id: 1,
        })
    );
    assert_eq!(AudioEventCallbackSystem::register_static_callback(&mut c, CName::new(10), CName::undefined(), CName::new(20)), None);
    assert_eq!(c.next, 2);
}
