//! Muting vanilla audio events, one request at a time.

use vstd::prelude::*;

use crate::engine::mutes::{last_index_of, EventHookTypes, MuteEntry};
use crate::names::EventName;

verus! {

/// Muting and unmuting of audio events, as a whole or for some hooks.
pub trait Mute {
    fn mute(&mut self, event_name: EventName);

    fn unmute(&mut self, event_name: EventName);

    fn mute_specific(&mut self, event_name: EventName, event_type: EventHookTypes);

    fn unmute_specific(&mut self, event_name: EventName, event_type: EventHookTypes);

    fn is_muted(&self, event_name: EventName) -> bool;

    fn is_specific_muted(&self, event_name: EventName, event_type: EventHookTypes) -> bool;
}

/// The entries once `types` are added to the entry of `name`, which is
/// appended when missing.
pub open spec fn with_hooks(s: Seq<MuteEntry>, name: EventName, types: EventHookTypes) -> Seq<MuteEntry> {
    let i = last_index_of(s, name);
    if i < 0 {
        s.push((name, types))
    } else {
        s.update(i, (name, EventHookTypes { bits: s[i].1.bits | types.bits }))
    }
}

/// The entries once `types` are removed from the entry of `name`, if any.
pub open spec fn without_hooks(s: Seq<MuteEntry>, name: EventName, types: EventHookTypes) -> Seq<MuteEntry> {
    let i = last_index_of(s, name);
    if i < 0 {
        s
    } else {
        s.update(i, (name, EventHookTypes { bits: s[i].1.bits & !types.bits }))
    }
}

/// The entries without the entry of `name`, if any.
pub open spec fn without_entry(s: Seq<MuteEntry>, name: EventName) -> Seq<MuteEntry> {
    let i = last_index_of(s, name);
    if i < 0 {
        s
    } else {
        s.remove(i)
    }
}

} // verus!
