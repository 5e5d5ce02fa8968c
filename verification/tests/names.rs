use audioware::names::{is_reserved, validate_emitter, CName, ClassName, EntityId, EventName, FunctionName, TagName, TargetId, ValidationError};

#[test]
fn undefined_name_is_not_defined() {
    assert!(!CName::undefined().is_defined());
    assert!(CName::new(42).is_defined());
}

#[test]
fn event_name_refuses_undefined() {
    assert_eq!(EventName::try_new(CName::undefined()), Err(ValidationError::InvalidEventName));
    assert_eq!(EventName::try_new(CName::new(7)), Ok(EventName(CName::new(7))));
}

#[test]
fn class_and_function_names_refuse_undefined() {
    assert_eq!(ClassName::try_new(CName::undefined()), Err(ValidationError::InvalidClassName));
    assert_eq!(FunctionName::try_new(CName::undefined()), Err(ValidationError::InvalidFunctionName));
    assert_eq!(ClassName::try_new(CName::new(3)), Ok(ClassName(CName::new(3))));
    assert_eq!(FunctionName::try_new(CName::new(4)), Ok(FunctionName(CName::new(4))));
}

#[test]
fn reserved_texts() {
    assert!(is_reserved(""));
    assert!(is_reserved("None"));
    assert!(!is_reserved("none"));
    assert!(!is_reserved("Nonee"));
    assert!(!is_reserved("tag"));
}

#[test]
fn tag_name_refuses_reserved_text() {
    assert_eq!(TagName::try_new(CName::new(1), "None"), Err(ValidationError::InvalidTagName));
    assert_eq!(TagName::try_new(CName::new(1), ""), Err(ValidationError::InvalidTagName));
    assert_eq!(TagName::try_new(CName::new(1), "radio"), Ok(TagName(CName::new(1))));
}

#[test]
fn target_id_refuses_undefined_and_player() {
    let player = EntityId { hash: 9 };
    assert_eq!(TargetId::try_new(EntityId { hash: 0 }, player), Err(ValidationError::InvalidTargetId));
    assert_eq!(TargetId::try_new(player, player), Err(ValidationError::InvalidTargetId));
    assert_eq!(TargetId::try_new(EntityId { hash: 5 }, player), Ok(TargetId(EntityId { hash: 5 })));
}

#[test]
fn emitter_requests_check_tag_then_entity() {
    let player = EntityId { hash: 9 };
    assert_eq!(
        validate_emitter(CName::new(1), "None", EntityId { hash: 0 }, player),
        Err(ValidationError::InvalidTagName)
    );
    assert_eq!(
        validate_emitter(CName::new(1), "radio", player, player),
        Err(ValidationError::InvalidTargetId)
    );
    assert_eq!(
        validate_emitter(CName::new(1), "radio", EntityId { hash: 4 }, player),
        Ok((TagName(CName::new(1)), TargetId(EntityId { hash: 4 })))
    );
}
