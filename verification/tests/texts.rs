use audioware::abi::callback::{Callback, FireCallback, FirePlayCallback, ScriptRef};
use audioware::abi::command::Command;
use audioware::abi::lifecycle::{ReplacementNotification, Session, System};
use audioware::abi::text::{decimal, NameTexts};
use audioware::abi::types::{AnyTarget, EventActionType, Preset, WwiseId};
use audioware::engine::mutes::EventHookTypes;
use audioware::engine::queue::LoopEvent;
use audioware::names::{CName, ClassName, EntityId, EventName, FunctionName};

fn names() -> NameTexts {
    NameTexts {
        entries: vec![
            (CName::new(1), "ono_v_hey".to_string()),
            (CName::new(2), "OnHey".to_string()),
            (CName::new(3), "MyClass".to_string()),
            (CName::new(2), "OnHello".to_string()),
        ],
    }
}

#[test]
fn names_show_their_last_text() {
    let n = names();
    assert_eq!(n.text(CName::new(2)), "OnHello");
    assert_eq!(n.text(CName::new(9)), "");
}

#[test]
fn callback_requests_are_described() {
    let n = names();
    let reg = Callback::RegisterFunction {
        event_name: EventName(CName::new(1)),
        target: ScriptRef(5),
        function_name: FunctionName(CName::new(2)),
        id: 1,
    };
    assert_eq!(reg.describe(&n), "register callback for ono_v_hey to instance class method OnHello");
    let stat = Callback::RegisterStaticFunction {
        event_name: EventName(CName::new(1)),
        class_name: ClassName(CName::new(3)),
        function_name: FunctionName(CName::new(2)),
        id: 2,
    };
    assert_eq!(stat.describe(&n), "register callback for ono_v_hey to class MyClass static method OnHello");
    assert_eq!(Callback::Filter { id: 1, target: AnyTarget::Id(EntityId { hash: 1 }), add: false }.describe(&n), "remove filter");
    assert_eq!(Callback::SetLifetime { id: 1, sticky: true }.describe(&n), "set lifetime Forever");
    assert_eq!(Callback::Unregister { id: 1 }.describe(&n), "unregister callback");
    let fire = Callback::FireCallbacks(FireCallback::Play(FirePlayCallback {
        event_name: EventName(CName::new(1)),
        event_type: EventActionType::Play,
        entity_id: EntityId { hash: 4 },
        emitter_name: CName::new(0),
        wwise_id: WwiseId(0),
    }));
    assert_eq!(fire.describe(&n), "fire callback(s) for Play event for ono_v_hey");
}

#[test]
fn commands_are_described() {
    let c: Command<(), (), (), ()> = Command::Stop { event_name: CName::new(1), entity_id: None, emitter_name: None, tween: None };
    assert_eq!(c.describe(), "stop");
    let c: Command<(), (), (), ()> = Command::EnqueueAndPlayOnEmitter {
        event_name: CName::new(1),
        entity_id: audioware::names::TargetId(EntityId { hash: 1 }),
        tag_name: audioware::names::TagName(CName::new(2)),
        ext: None,
        control_id: audioware::engine::controls::ControlId(0),
    };
    assert_eq!(c.describe(), "enqueue and play on emitter");
}

#[test]
fn loop_events_are_described() {
    let n = names();
    assert_eq!(LoopEvent::Terminate.describe(&n), "terminate");
    assert_eq!(LoopEvent::SetMuteInBackground { value: false }.describe(&n), "set mute in background false");
    assert_eq!(LoopEvent::Session(Session::Ready).describe(&n), "game session Ready");
    assert_eq!(LoopEvent::System(System::PlayerAttach).describe(&n), "game system player attach");
    assert_eq!(LoopEvent::Preset(Preset::Underwater).describe(&n), "preset Underwater");
    let mute = LoopEvent::Replacement(ReplacementNotification::MuteSpecific(EventName(CName::new(1)), EventHookTypes { bits: 1030 }));
    assert_eq!(mute.describe(&n), "replacement mute: ono_v_hey, 1030");
    assert_eq!(decimal(0), "0");
    assert_eq!(decimal(65535), "65535");
}
