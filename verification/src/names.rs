//! Engine identifiers, held by the values that the logic compares.

use vstd::prelude::*;

verus! {

/// A hashed engine name. The engine interns every name and compares names
/// by their 64-bit hash; the hash 0 stands for the undefined name.
#[derive(Debug, Clone, Copy, PartialEq, Eq, Hash, Structural)]
pub struct CName {
    pub hash: u64,
}

impl CName {
    pub fn new(hash: u64) -> (r: CName)
        ensures
            r.hash == hash,
    {
        CName { hash }
    }

    /// The undefined name.
    pub fn undefined() -> (r: CName)
        ensures
            r.hash == 0,
    {
        CName { hash: 0 }
    }

    pub open spec fn spec_is_defined(self) -> bool {
        self.hash != 0
    }

    pub fn is_defined(&self) -> (r: bool)
        ensures
            r == self.spec_is_defined(),
    {
        self.hash != 0
    }
}

/// An entity of the game world, identified by its 64-bit hash; 0 is undefined.
#[derive(Debug, Clone, Copy, PartialEq, Eq, Hash, Structural)]
pub struct EntityId {
    pub hash: u64,
}

impl EntityId {
    pub open spec fn spec_is_defined(self) -> bool {
        self.hash != 0
    }

    pub fn is_defined(&self) -> (r: bool)
        ensures
            r == self.spec_is_defined(),
    {
        self.hash != 0
    }
}

/// Errors raised while validating values handed over by scripts.
#[derive(Debug, Clone, Copy, PartialEq, Eq, Structural)]
pub enum ValidationError {
    InvalidTagName,
    InvalidTargetId,
    InvalidEventName,
    InvalidClassName,
    InvalidFunctionName,
}

/// The name of an audio event; the undefined name is not one.
#[derive(Debug, Clone, Copy, PartialEq, Eq, Hash, Structural)]
pub struct EventName(pub CName);

impl EventName {
    pub fn try_new(value: CName) -> (r: Result<EventName, ValidationError>)
        ensures
            value.spec_is_defined() ==> r == Ok::<EventName, ValidationError>(EventName(value)),
            !value.spec_is_defined() ==> r == Err::<EventName, ValidationError>(
                ValidationError::InvalidEventName,
            ),
    {
        if value.is_defined() {
            Ok(EventName(value))
        } else {
            Err(ValidationError::InvalidEventName)
        }
    }
}

/// The name of a script class; the undefined name is not one.
#[derive(Debug, Clone, Copy, PartialEq, Eq, Structural)]
pub struct ClassName(pub CName);

impl ClassName {
    pub fn try_new(value: CName) -> (r: Result<ClassName, ValidationError>)
        ensures
            value.spec_is_defined() ==> r == Ok::<ClassName, ValidationError>(ClassName(value)),
            !value.spec_is_defined() ==> r == Err::<ClassName, ValidationError>(
                ValidationError::InvalidClassName,
            ),
    {
        if value.is_defined() {
            Ok(ClassName(value))
        } else {
            Err(ValidationError::InvalidClassName)
        }
    }
}

/// The name of a script function; the undefined name is not one.
#[derive(Debug, Clone, Copy, PartialEq, Eq, Structural)]
pub struct FunctionName(pub CName);

impl FunctionName {
    pub fn try_new(value: CName) -> (r: Result<FunctionName, ValidationError>)
        ensures
            value.spec_is_defined() ==> r == Ok::<FunctionName, ValidationError>(
                FunctionName(value),
            ),
            !value.spec_is_defined() ==> r == Err::<FunctionName, ValidationError>(
                ValidationError::InvalidFunctionName,
            ),
    {
        if value.is_defined() {
            Ok(FunctionName(value))
        } else {
            Err(ValidationError::InvalidFunctionName)
        }
    }
}

/// The reserved text of a name: empty or `None`.
pub open spec fn is_reserved_text(text: Seq<char>) -> bool {
    text.len() == 0 || text == seq!['N', 'o', 'n', 'e']
}

/// Exactly two texts are reserved: the empty text and `None`. Any other
/// text, whatever its length or first letter, is a usable name.
pub proof fn law_reserved_texts(text: Seq<char>)
    ensures
        is_reserved_text(text) <==> (text.len() == 0 || (text.len() == 4 && text[0] == 'N' && text[1] == 'o'
            && text[2] == 'n' && text[3] == 'e')),
        text.len() > 0 && text.len() != 4 ==> !is_reserved_text(text),
        text.len() == 4 && text[1] != 'o' ==> !is_reserved_text(text),
        text.len() == 4 && text[3] != 'e' ==> !is_reserved_text(text),
{
    if text.len() == 4 && text[0] == 'N' && text[1] == 'o' && text[2] == 'n' && text[3] == 'e' {
        assert(text =~= seq!['N', 'o', 'n', 'e']);
    }
}

/// Whether `text` is empty or reads `None`.
pub fn is_reserved(text: &str) -> (r: bool)
    ensures
        r == is_reserved_text(text@),
        r == (text@.len() == 0 || (text@.len() == 4 && text@[0] == 'N' && text@[1] == 'o' && text@[2] == 'n'
            && text@[3] == 'e')),
{
    let n: usize = text.unicode_len();
    if n == 0 {
        return true;
    }
    if n != 4 {
        return false;
    }
    let r = text.get_char(0) == 'N' && text.get_char(1) == 'o' && text.get_char(2) == 'n'
        && text.get_char(3) == 'e';
    proof {
        if r {
            assert(text@ =~= seq!['N', 'o', 'n', 'e']);
        }
    }
    r
}

/// A tag that identifies one of the emitters registered on an entity.
#[derive(Debug, Clone, Copy, PartialEq, Eq, Structural)]
pub struct TagName(pub CName);

impl TagName {
    /// Validates a tag: `text` is the name as the engine's name pool spells it;
    /// an empty tag or `None` is refused.
    pub fn try_new(value: CName, text: &str) -> (r: Result<TagName, ValidationError>)
        ensures
            is_reserved_text(text@) ==> r == Err::<TagName, ValidationError>(
                ValidationError::InvalidTagName,
            ),
            !is_reserved_text(text@) ==> r == Ok::<TagName, ValidationError>(TagName(value)),
            r is Err <==> (text@.len() == 0 || (text@.len() == 4 && text@[0] == 'N' && text@[1] == 'o'
                && text@[2] == 'n' && text@[3] == 'e')),
    {
        if is_reserved(text) {
            Err(ValidationError::InvalidTagName)
        } else {
            Ok(TagName(value))
        }
    }
}

/// An entity that sounds can be played on: defined and not the player.
#[derive(Debug, Clone, Copy, PartialEq, Eq, Structural)]
pub struct TargetId(pub EntityId);

impl TargetId {
    /// Validates a target; `player` is the entity of the player, which
    /// cannot be used as an emitter.
    pub fn try_new(value: EntityId, player: EntityId) -> (r: Result<TargetId, ValidationError>)
        ensures
            (!value.spec_is_defined() || value == player) ==> r == Err::<TargetId, ValidationError>(
                ValidationError::InvalidTargetId,
            ),
            (value.spec_is_defined() && value != player) ==> r == Ok::<TargetId, ValidationError>(
                TargetId(value),
            ),
    {
        if !value.is_defined() || value == player {
            Err(ValidationError::InvalidTargetId)
        } else {
            Ok(TargetId(value))
        }
    }
}

/// Validates the emitter that a request targets, as requests to register,
/// unregister, play on or stop on an emitter do: its tag first, then its
/// entity.
pub fn validate_emitter(tag_name: CName, tag_text: &str, entity_id: EntityId, player: EntityId) -> (r: Result<(TagName, TargetId), ValidationError>)
    ensures
        is_reserved_text(tag_text@) ==> r == Err::<(TagName, TargetId), ValidationError>(ValidationError::InvalidTagName),
        !is_reserved_text(tag_text@) && (!entity_id.spec_is_defined() || entity_id == player)
            ==> r == Err::<(TagName, TargetId), ValidationError>(ValidationError::InvalidTargetId),
        !is_reserved_text(tag_text@) && entity_id.spec_is_defined() && entity_id != player
            ==> r == Ok::<(TagName, TargetId), ValidationError>((TagName(tag_name), TargetId(entity_id))),
{
    let tag = match TagName::try_new(tag_name, tag_text) {
        Ok(t) => t,
        Err(e) => return Err(e),
    };
    let target = match TargetId::try_new(entity_id, player) {
        Ok(t) => t,
        Err(e) => return Err(e),
    };
    Ok((tag, target))
}

} // verus!
