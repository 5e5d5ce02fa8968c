//! Callbacks that scripts register for audio events: the registry, the
//! requests that change it, and which callbacks an event fires.

use vstd::prelude::*;

use crate::abi::callback::{
    fire_emitter_name, fire_entity_id, fire_event_name, fire_event_type, fire_hook_bits,
    fire_wwise_id, Callback, FireCallback, ScriptRef,
};
use crate::abi::types::{AnyTarget, EventActionType};
use crate::engine::controls::after_draw;
use crate::names::{ClassName, CName, EventName, FunctionName};

verus! {

/// Handle of a registered callback.
#[derive(Debug, Clone, Copy, PartialEq, Eq, Structural)]
pub struct Key(pub usize);

/// A callback on a method of a script object.
#[derive(Debug, Clone, Copy, PartialEq, Eq, Structural)]
pub struct MemberFunc {
    pub target: ScriptRef,
    pub function_name: FunctionName,
}

/// A callback on a static function of a script class.
#[derive(Debug, Clone, Copy, PartialEq, Eq, Structural)]
pub struct StaticFunc {
    pub class_name: ClassName,
    pub function_name: FunctionName,
}

#[derive(Debug, Clone, Copy, PartialEq, Eq, Structural)]
pub enum CallbackFunction {
    Member(MemberFunc),
    Static(StaticFunc),
}

/// A registered callback: what to call, the filters narrowing the events
/// it is called for, the event it listens to, and whether it outlives the
/// game session.
pub struct AudioEventCallback {
    pub callback: CallbackFunction,
    pub targets: Vec<AnyTarget>,
    pub event_name: EventName,
    pub sticky: bool,
}

/// What a registered callback is.
pub struct CallbackView {
    pub callback: CallbackFunction,
    pub targets: Seq<AnyTarget>,
    pub event_name: EventName,
    pub sticky: bool,
}

impl View for AudioEventCallback {
    type V = CallbackView;

    open spec fn view(&self) -> CallbackView {
        CallbackView {
            callback: self.callback,
            targets: self.targets@,
            event_name: self.event_name,
            sticky: self.sticky,
        }
    }
}

pub type Entry = (Key, CallbackView);

pub open spec fn entries_view(s: Seq<(Key, AudioEventCallback)>) -> Seq<Entry> {
    s.map_values(|e: (Key, AudioEventCallback)| (e.0, e.1@))
}

/// Some type filter is set and `t` is none of them.
pub open spec fn has_type_filter(targets: Seq<AnyTarget>) -> bool {
    exists|i: int| 0 <= i < targets.len() && targets[i] is Type
}

/// The callback listens to `event_name` and, when it filters by event
/// type, to `event_type`.
pub open spec fn spec_matches(cb: CallbackView, event_name: EventName, event_type: EventActionType) -> bool {
    &&& cb.event_name == event_name
    &&& (!has_type_filter(cb.targets) || cb.targets.contains(AnyTarget::Type(event_type)))
}

/// A filter accepts a fired event.
pub open spec fn target_accepts(t: AnyTarget, f: FireCallback) -> bool {
    match t {
        AnyTarget::Hook(x) => x.bits == fire_hook_bits(f),
        AnyTarget::Type(x) => x == fire_event_type(f),
        AnyTarget::Wwise(x) => x == fire_wwise_id(f),
        AnyTarget::Id(x) => fire_entity_id(f) == Some(x),
        AnyTarget::EmitterName(x) => fire_emitter_name(f) == Some(x),
    }
}

/// The callback is fired for `f`: same event, and no filter or some
/// filter accepting it.
pub open spec fn spec_matches_filters(cb: CallbackView, f: FireCallback) -> bool {
    &&& cb.event_name == fire_event_name(f)
    &&& (cb.targets.len() == 0 || exists|i: int| 0 <= i < cb.targets.len() && target_accepts(cb.targets[i], f))
}

pub open spec fn has_key(s: Seq<Entry>, k: Key) -> bool {
    exists|i: int| 0 <= i < s.len() && s[i].0 == k
}

pub open spec fn distinct_keys(s: Seq<Entry>) -> bool {
    forall|i: int, j: int| 0 <= i < j < s.len() ==> s[i].0 != s[j].0
}

/// Index of the last entry with key `k`, or -1.
pub open spec fn last_key_index(s: Seq<Entry>, k: Key) -> int
    decreases s.len(),
{
    if s.len() == 0 {
        -1
    } else if s.last().0 == k {
        s.len() - 1
    } else {
        last_key_index(s.drop_last(), k)
    }
}

/// Index of the last entry with key `k` that does not filter by `t` yet,
/// or -1.
pub open spec fn last_addable_index(s: Seq<Entry>, k: Key, t: AnyTarget) -> int
    decreases s.len(),
{
    if s.len() == 0 {
        -1
    } else if s.last().0 == k && !s.last().1.targets.contains(t) {
        s.len() - 1
    } else {
        last_addable_index(s.drop_last(), k, t)
    }
}

/// Index of the last occurrence of `t`, or -1.
pub open spec fn last_target_index(s: Seq<AnyTarget>, t: AnyTarget) -> int
    decreases s.len(),
{
    if s.len() == 0 {
        -1
    } else if s.last() == t {
        s.len() - 1
    } else {
        last_target_index(s.drop_last(), t)
    }
}

/// The entries once the filter `t` is removed from the callbacks of `k`;
/// a callback left without filters is dropped. Also tells whether a filter
/// was removed.
pub open spec fn remove_filter(s: Seq<Entry>, k: Key, t: AnyTarget) -> (Seq<Entry>, bool)
    decreases s.len(),
{
    if s.len() == 0 {
        (s, false)
    } else {
        let (r, c) = remove_filter(s.drop_last(), k, t);
        let x = s.last();
        if x.0 != k {
            (r.push(x), c)
        } else {
            let j = last_target_index(x.1.targets, t);
            if j < 0 {
                (r.push(x), c)
            } else {
                let nt = x.1.targets.remove(j);
                if nt.len() == 0 {
                    (r, true)
                } else {
                    (r.push((x.0, CallbackView { targets: nt, ..x.1 })), true)
                }
            }
        }
    }
}

pub open spec fn new_callback(callback: CallbackFunction, event_name: EventName) -> CallbackView {
    CallbackView { callback, targets: Seq::empty(), event_name, sticky: false }
}

/// One request applied to the entries and to whether they must be
/// published.
pub open spec fn apply_callback(s: Seq<Entry>, p: bool, c: Callback) -> (Seq<Entry>, bool) {
    match c {
        Callback::RegisterFunction { event_name, target, function_name, id } => if has_key(s, Key(id)) {
            (s, p)
        } else {
            (s.push((Key(id), new_callback(CallbackFunction::Member(MemberFunc { target, function_name }), event_name))), true)
        },
        Callback::RegisterStaticFunction { event_name, class_name, function_name, id } => if has_key(s, Key(id)) {
            (s, p)
        } else {
            (s.push((Key(id), new_callback(CallbackFunction::Static(StaticFunc { class_name, function_name }), event_name))), true)
        },
        Callback::FireCallbacks(_) => (s, p),
        Callback::Unregister { id } => {
            let i = last_key_index(s, Key(id));
            if i < 0 {
                (s, p)
            } else {
                (s.remove(i), true)
            }
        },
        Callback::Filter { id, target, add } => if add {
            let i = last_addable_index(s, Key(id), target);
            if i < 0 {
                (s, p)
            } else {
                (s.update(i, (Key(id), CallbackView { targets: s[i].1.targets.push(target), ..s[i].1 })), true)
            }
        } else {
            let (r, c) = remove_filter(s, Key(id), target);
            (r, p || c)
        },
        Callback::SetLifetime { id, sticky } => {
            let i = last_key_index(s, Key(id));
            if i >= 0 && s[i].1.sticky != sticky {
                (s.update(i, (Key(id), CallbackView { sticky, ..s[i].1 })), true)
            } else {
                (s, p)
            }
        },
    }
}

/// The requests applied in order.
pub open spec fn apply_callbacks(s: Seq<Entry>, p: bool, cs: Seq<Callback>) -> (Seq<Entry>, bool)
    decreases cs.len(),
{
    if cs.len() == 0 {
        (s, p)
    } else {
        let (s1, p1) = apply_callbacks(s, p, cs.drop_last());
        apply_callback(s1, p1, cs.last())
    }
}

/// The sticky callbacks, in order.
pub open spec fn keep_sticky(s: Seq<Entry>) -> Seq<Entry>
    decreases s.len(),
{
    if s.len() == 0 {
        s
    } else if s.last().1.sticky {
        keep_sticky(s.drop_last()).push(s.last())
    } else {
        keep_sticky(s.drop_last())
    }
}

/// The keys of the callbacks that `f` fires, in order.
pub open spec fn fired_keys(s: Seq<Entry>, f: FireCallback) -> Seq<Key>
    decreases s.len(),
{
    if s.len() == 0 {
        Seq::empty()
    } else if spec_matches_filters(s.last().1, f) {
        fired_keys(s.drop_last(), f).push(s.last().0)
    } else {
        fired_keys(s.drop_last(), f)
    }
}

/// Every key of `r` is a key of `s`.
pub open spec fn keys_within(r: Seq<Entry>, s: Seq<Entry>) -> bool {
    forall|i: int| 0 <= i < r.len() ==> has_key(s, #[trigger] r[i].0)
}

pub proof fn lemma_last_key_index(s: Seq<Entry>, k: Key)
    ensures
        -1 <= last_key_index(s, k) < s.len(),
        last_key_index(s, k) >= 0 ==> s[last_key_index(s, k)].0 == k,
        last_key_index(s, k) < 0 <==> !has_key(s, k),
    decreases s.len(),
{
    if s.len() > 0 {
        lemma_last_key_index(s.drop_last(), k);
        if last_key_index(s, k) < 0 {
            assert forall|i: int| 0 <= i < s.len() implies s[i].0 != k by {
                if i < s.len() - 1 {
                    assert(s.drop_last()[i] == s[i]);
                }
            }
        } else if s.last().0 != k {
            let j = last_key_index(s.drop_last(), k);
            assert(s.drop_last()[j] == s[j]);
        }
    }
}

pub proof fn lemma_last_addable_index(s: Seq<Entry>, k: Key, t: AnyTarget)
    ensures
        -1 <= last_addable_index(s, k, t) < s.len(),
        last_addable_index(s, k, t) >= 0 ==> s[last_addable_index(s, k, t)].0 == k
            && !s[last_addable_index(s, k, t)].1.targets.contains(t),
    decreases s.len(),
{
    if s.len() > 0 {
        lemma_last_addable_index(s.drop_last(), k, t);
        if last_addable_index(s, k, t) >= 0 && !(s.last().0 == k && !s.last().1.targets.contains(t)) {
            let j = last_addable_index(s.drop_last(), k, t);
            assert(s.drop_last()[j] == s[j]);
        }
    }
}

pub proof fn lemma_last_target_index(s: Seq<AnyTarget>, t: AnyTarget)
    ensures
        -1 <= last_target_index(s, t) < s.len(),
        last_target_index(s, t) >= 0 ==> s[last_target_index(s, t)] == t,
        last_target_index(s, t) < 0 <==> !s.contains(t),
    decreases s.len(),
{
    if s.len() > 0 {
        lemma_last_target_index(s.drop_last(), t);
        if last_target_index(s, t) < 0 {
            assert forall|i: int| 0 <= i < s.len() implies s[i] != t by {
                if i < s.len() - 1 {
                    assert(s.drop_last()[i] == s[i]);
                }
            }
        } else if s.last() != t {
            let j = last_target_index(s.drop_last(), t);
            assert(s.drop_last()[j] == s[j]);
        }
        if s.contains(t) && last_target_index(s, t) < 0 {
            let j = choose|j: int| 0 <= j < s.len() && s[j] == t;
            assert(s[j] == t);
        }
    }
}


proof fn lemma_remove_filter_effect(s: Seq<Entry>, k: Key, t: AnyTarget)
    requires
        distinct_keys(s),
    ensures
        !has_key(s, k) ==> remove_filter(s, k, t).0 == s,
        forall|i: int| 0 <= i < s.len() && (#[trigger] s[i]).0 == k && s[i].1.targets.contains(t) && s[i].1.targets.len() > 1
            ==> exists|n: int| 0 <= n < remove_filter(s, k, t).0.len() && remove_filter(s, k, t).0[n].0 == k
                && remove_filter(s, k, t).0[n].1.targets.to_multiset() == s[i].1.targets.to_multiset().remove(t)
                && remove_filter(s, k, t).0[n].1.targets.len() == s[i].1.targets.len() - 1
                && remove_filter(s, k, t).0[n].1.callback == s[i].1.callback
                && remove_filter(s, k, t).0[n].1.event_name == s[i].1.event_name
                && remove_filter(s, k, t).0[n].1.sticky == s[i].1.sticky,
        forall|i: int| 0 <= i < s.len() && (#[trigger] s[i]).0 == k && s[i].1.targets == seq![t]
            ==> !has_key(remove_filter(s, k, t).0, k),
        forall|j: int| 0 <= j < s.len() && (#[trigger] s[j]).0 != k ==> remove_filter(s, k, t).0.contains(s[j]),
    decreases s.len(),
{
    if s.len() > 0 {
        let d = s.drop_last();
        assert(distinct_keys(d)) by {
            assert forall|a: int, b: int| 0 <= a < b < d.len() implies d[a].0 != d[b].0 by {
                assert(d[a] == s[a] && d[b] == s[b]);
            }
        }
        lemma_remove_filter_effect(d, k, t);
        let q = remove_filter(d, k, t).0;
        let r = remove_filter(s, k, t).0;
        let x = s.last();
        assert(s[s.len() - 1] == x);
        if x.0 == k {
            assert(!has_key(d, k)) by {
                if has_key(d, k) {
                    let a = choose|a: int| 0 <= a < d.len() && d[a].0 == k;
                    assert(s[a] == d[a]);
                }
            }
            assert(q == d);
            lemma_last_target_index(x.1.targets, t);
            let jj = last_target_index(x.1.targets, t);
            assert forall|i: int| 0 <= i < s.len() && (#[trigger] s[i]).0 == k && s[i].1.targets.contains(t) && s[i].1.targets.len() > 1
                implies exists|n: int| 0 <= n < r.len() && r[n].0 == k
                    && r[n].1.targets.to_multiset() == s[i].1.targets.to_multiset().remove(t)
                    && r[n].1.targets.len() == s[i].1.targets.len() - 1
                    && r[n].1.callback == s[i].1.callback
                    && r[n].1.event_name == s[i].1.event_name
                    && r[n].1.sticky == s[i].1.sticky by {
                if i < d.len() {
                    assert(s[i] == d[i]);
                }
                assert(i == s.len() - 1);
                vstd::seq_lib::to_multiset_remove(x.1.targets, jj);
                let n = d.len() as int;
                assert(r[n].1.targets == x.1.targets.remove(jj));
            }
            assert forall|i: int| 0 <= i < s.len() && (#[trigger] s[i]).0 == k && s[i].1.targets == seq![t]
                implies !has_key(r, k) by {
                if i < d.len() {
                    assert(s[i] == d[i]);
                }
                assert(x.1.targets == seq![t]);
                assert(x.1.targets.contains(t)) by {
                    assert(x.1.targets[0] == t);
                }
                assert(x.1.targets.remove(jj).len() == 0);
                assert(r == d);
            }
            assert forall|j: int| 0 <= j < s.len() && (#[trigger] s[j]).0 != k implies r.contains(s[j]) by {
                assert(j < d.len());
                assert(s[j] == d[j]);
                assert(d[j] == r[j]);
            }
        } else {
            assert(r == q.push(x));
            assert forall|i: int| 0 <= i < s.len() && (#[trigger] s[i]).0 == k && s[i].1.targets.contains(t) && s[i].1.targets.len() > 1
                implies exists|n: int| 0 <= n < r.len() && r[n].0 == k
                    && r[n].1.targets.to_multiset() == s[i].1.targets.to_multiset().remove(t)
                    && r[n].1.targets.len() == s[i].1.targets.len() - 1
                    && r[n].1.callback == s[i].1.callback
                    && r[n].1.event_name == s[i].1.event_name
                    && r[n].1.sticky == s[i].1.sticky by {
                assert(i < d.len());
                assert(s[i] == d[i]);
                assert(d[i].0 == k);
                let n = choose|n: int| 0 <= n < q.len() && q[n].0 == k
                    && q[n].1.targets.to_multiset() == d[i].1.targets.to_multiset().remove(t)
                    && q[n].1.targets.len() == d[i].1.targets.len() - 1
                    && q[n].1.callback == d[i].1.callback
                    && q[n].1.event_name == d[i].1.event_name
                    && q[n].1.sticky == d[i].1.sticky;
                assert(r[n] == q[n]);
            }
            assert forall|i: int| 0 <= i < s.len() && (#[trigger] s[i]).0 == k && s[i].1.targets == seq![t]
                implies !has_key(r, k) by {
                assert(i < d.len());
                assert(s[i] == d[i]);
                assert(d[i].0 == k);
                assert(!has_key(q, k));
                if has_key(r, k) {
                    let a = choose|a: int| 0 <= a < r.len() && r[a].0 == k;
                    if a < q.len() {
                        assert(r[a] == q[a]);
                    }
                }
            }
            assert forall|j: int| 0 <= j < s.len() && (#[trigger] s[j]).0 != k implies r.contains(s[j]) by {
                if j < d.len() {
                    assert(s[j] == d[j]);
                    assert(q.contains(d[j]));
                    let a = choose|a: int| 0 <= a < q.len() && q[a] == d[j];
                    assert(r[a] == q[a]);
                } else {
                    assert(r[q.len() as int] == x);
                }
            }
            if !has_key(s, k) {
                assert(!has_key(d, k)) by {
                    if has_key(d, k) {
                        let a = choose|a: int| 0 <= a < d.len() && d[a].0 == k;
                        assert(s[a] == d[a]);
                    }
                }
                assert(r =~= s);
            }
        }
    }
}

/// Removing a filter from a callback that has others keeps the callback,
/// with the same function, event and lifetime and its filters less that
/// one occurrence of the removed one; a callback whose only filter is
/// removed is dropped; every other callback stays as it was.
pub proof fn law_remove_filter_keeps_the_others(s: Seq<Entry>, p: bool, id: usize, t: AnyTarget, i: int)
    requires
        distinct_keys(s),
        0 <= i < s.len(),
        s[i].0 == Key(id),
    ensures
        ({
            let r = apply_callback(s, p, Callback::Filter { id, target: t, add: false }).0;
            &&& s[i].1.targets.contains(t) && s[i].1.targets.len() > 1 ==> exists|n: int| 0 <= n < r.len()
                && r[n].0 == Key(id)
                && r[n].1.targets.to_multiset() == s[i].1.targets.to_multiset().remove(t)
                && r[n].1.targets.len() == s[i].1.targets.len() - 1
                && r[n].1.callback == s[i].1.callback
                && r[n].1.event_name == s[i].1.event_name
                && r[n].1.sticky == s[i].1.sticky
            &&& s[i].1.targets == seq![t] ==> !has_key(r, Key(id))
            &&& forall|j: int| 0 <= j < s.len() && (#[trigger] s[j]).0 != Key(id) ==> r.contains(s[j])
        }),
{
    lemma_remove_filter_effect(s, Key(id), t);
    assert(apply_callback(s, p, Callback::Filter { id, target: t, add: false }).0 == remove_filter(s, Key(id), t).0);
    assert(s[i].0 == Key(id));
}

/// A fired event fires only callbacks that listen to its name and that
/// have no filter or a filter it meets: an event type filter by the type
/// of the event, a hook filter by its hooks, an audio id filter by its id,
/// an entity filter by its entity, an emitter filter by its emitter.
pub proof fn law_fired_callbacks_meet_a_filter(s: Seq<Entry>, f: FireCallback)
    ensures
        forall|n: int| 0 <= n < fired_keys(s, f).len() ==> exists|i: int| 0 <= i < s.len()
            && s[i].0 == #[trigger] fired_keys(s, f)[n]
            && s[i].1.event_name == fire_event_name(f)
            && (s[i].1.targets.len() == 0 || exists|j: int| #![trigger s[i].1.targets[j]] 0 <= j < s[i].1.targets.len() && match s[i].1.targets[j] {
                AnyTarget::Hook(x) => x.bits == fire_hook_bits(f),
                AnyTarget::Type(x) => x == fire_event_type(f),
                AnyTarget::Wwise(x) => x == fire_wwise_id(f),
                AnyTarget::Id(x) => fire_entity_id(f) == Some(x),
                AnyTarget::EmitterName(x) => fire_emitter_name(f) == Some(x),
            }),
    decreases s.len(),
{
    if s.len() > 0 {
        let d = s.drop_last();
        law_fired_callbacks_meet_a_filter(d, f);
        let q = fired_keys(d, f);
        assert(s[s.len() - 1] == s.last());
        assert forall|n: int| 0 <= n < fired_keys(s, f).len() implies exists|i: int| 0 <= i < s.len()
            && s[i].0 == #[trigger] fired_keys(s, f)[n]
            && s[i].1.event_name == fire_event_name(f)
            && (s[i].1.targets.len() == 0 || exists|j: int| #![trigger s[i].1.targets[j]] 0 <= j < s[i].1.targets.len() && match s[i].1.targets[j] {
                AnyTarget::Hook(x) => x.bits == fire_hook_bits(f),
                AnyTarget::Type(x) => x == fire_event_type(f),
                AnyTarget::Wwise(x) => x == fire_wwise_id(f),
                AnyTarget::Id(x) => fire_entity_id(f) == Some(x),
                AnyTarget::EmitterName(x) => fire_emitter_name(f) == Some(x),
            }) by {
            if n < q.len() {
                assert(fired_keys(s, f)[n] == q[n]);
                let i = choose|i: int| 0 <= i < d.len()
                    && d[i].0 == #[trigger] q[n]
                    && d[i].1.event_name == fire_event_name(f)
                    && (d[i].1.targets.len() == 0 || exists|j: int| #![trigger d[i].1.targets[j]] 0 <= j < d[i].1.targets.len() && match d[i].1.targets[j] {
                        AnyTarget::Hook(x) => x.bits == fire_hook_bits(f),
                        AnyTarget::Type(x) => x == fire_event_type(f),
                        AnyTarget::Wwise(x) => x == fire_wwise_id(f),
                        AnyTarget::Id(x) => fire_entity_id(f) == Some(x),
                        AnyTarget::EmitterName(x) => fire_emitter_name(f) == Some(x),
                    });
                assert(s[i] == d[i]);
            } else {
                let i = s.len() - 1;
                assert(spec_matches_filters(s[i].1, f));
                assert(fired_keys(s, f)[n] == s[i].0);
                if s[i].1.targets.len() != 0 {
                    let j = choose|j: int| 0 <= j < s[i].1.targets.len() && target_accepts(s[i].1.targets[j], f);
                    assert(match s[i].1.targets[j] {
                        AnyTarget::Hook(x) => x.bits == fire_hook_bits(f),
                        AnyTarget::Type(x) => x == fire_event_type(f),
                        AnyTarget::Wwise(x) => x == fire_wwise_id(f),
                        AnyTarget::Id(x) => fire_entity_id(f) == Some(x),
                        AnyTarget::EmitterName(x) => fire_emitter_name(f) == Some(x),
                    });
                }
            }
        }
    }
}

/// Every callback that listens to a fired event's name and has no filter,
/// or a filter the event meets, is fired.
pub proof fn law_matching_callbacks_are_fired(s: Seq<Entry>, f: FireCallback)
    ensures
        forall|i: int| 0 <= i < s.len() && (#[trigger] s[i]).1.event_name == fire_event_name(f)
            && (s[i].1.targets.len() == 0 || exists|j: int| #![trigger s[i].1.targets[j]] 0 <= j < s[i].1.targets.len() && match s[i].1.targets[j] {
                AnyTarget::Hook(x) => x.bits == fire_hook_bits(f),
                AnyTarget::Type(x) => x == fire_event_type(f),
                AnyTarget::Wwise(x) => x == fire_wwise_id(f),
                AnyTarget::Id(x) => fire_entity_id(f) == Some(x),
                AnyTarget::EmitterName(x) => fire_emitter_name(f) == Some(x),
            }) ==> fired_keys(s, f).contains(s[i].0),
    decreases s.len(),
{
    if s.len() > 0 {
        let d = s.drop_last();
        law_matching_callbacks_are_fired(d, f);
        let q = fired_keys(d, f);
        assert(s[s.len() - 1] == s.last());
        assert forall|i: int| 0 <= i < s.len() && (#[trigger] s[i]).1.event_name == fire_event_name(f)
            && (s[i].1.targets.len() == 0 || exists|j: int| #![trigger s[i].1.targets[j]] 0 <= j < s[i].1.targets.len() && match s[i].1.targets[j] {
                AnyTarget::Hook(x) => x.bits == fire_hook_bits(f),
                AnyTarget::Type(x) => x == fire_event_type(f),
                AnyTarget::Wwise(x) => x == fire_wwise_id(f),
                AnyTarget::Id(x) => fire_entity_id(f) == Some(x),
                AnyTarget::EmitterName(x) => fire_emitter_name(f) == Some(x),
            }) implies fired_keys(s, f).contains(s[i].0) by {
            if i < d.len() {
                assert(s[i] == d[i]);
                assert(q.contains(d[i].0));
                let a = choose|a: int| 0 <= a < q.len() && q[a] == d[i].0;
                assert(fired_keys(s, f)[a] == q[a]);
            } else {
                if s[i].1.targets.len() != 0 {
                    let j = choose|j: int| #![trigger s[i].1.targets[j]] 0 <= j < s[i].1.targets.len() && match s[i].1.targets[j] {
                        AnyTarget::Hook(x) => x.bits == fire_hook_bits(f),
                        AnyTarget::Type(x) => x == fire_event_type(f),
                        AnyTarget::Wwise(x) => x == fire_wwise_id(f),
                        AnyTarget::Id(x) => fire_entity_id(f) == Some(x),
                        AnyTarget::EmitterName(x) => fire_emitter_name(f) == Some(x),
                    };
                    assert(target_accepts(s[i].1.targets[j], f));
                }
                assert(spec_matches_filters(s[i].1, f));
                assert(fired_keys(s, f)[q.len() as int] == s[i].0);
            }
        }
    }
}

proof fn lemma_remove_filter(s: Seq<Entry>, k: Key, t: AnyTarget)
    ensures
        keys_within(remove_filter(s, k, t).0, s),
        distinct_keys(s) ==> distinct_keys(remove_filter(s, k, t).0),
    decreases s.len(),
{
    if s.len() > 0 {
        let d = s.drop_last();
        lemma_remove_filter(d, k, t);
        let r = remove_filter(d, k, t).0;
        let w = remove_filter(s, k, t).0;
        assert(s[s.len() - 1] == s.last());
        assert forall|i: int| 0 <= i < w.len() implies has_key(s, #[trigger] w[i].0) by {
            if i < r.len() {
                let j = choose|j: int| 0 <= j < d.len() && d[j].0 == r[i].0;
                assert(s[j] == d[j]);
            }
        }
        if distinct_keys(s) {
            assert(distinct_keys(d)) by {
                assert forall|i: int, j: int| 0 <= i < j < d.len() implies d[i].0 != d[j].0 by {
                    assert(d[i] == s[i] && d[j] == s[j]);
                }
            }
            assert forall|i: int, j: int| 0 <= i < j < w.len() implies w[i].0 != w[j].0 by {
                if j == r.len() {
                    let m = choose|m: int| 0 <= m < d.len() && d[m].0 == r[i].0;
                    assert(d[m] == s[m]);
                }
            }
        }
    }
}

proof fn lemma_keep_sticky(s: Seq<Entry>)
    ensures
        keys_within(keep_sticky(s), s),
        distinct_keys(s) ==> distinct_keys(keep_sticky(s)),
        keep_sticky(s).len() <= s.len(),
    decreases s.len(),
{
    if s.len() > 0 {
        let d = s.drop_last();
        lemma_keep_sticky(d);
        let r = keep_sticky(d);
        let w = keep_sticky(s);
        assert(s[s.len() - 1] == s.last());
        assert forall|i: int| 0 <= i < w.len() implies has_key(s, #[trigger] w[i].0) by {
            if i < r.len() {
                let j = choose|j: int| 0 <= j < d.len() && d[j].0 == r[i].0;
                assert(s[j] == d[j]);
            }
        }
        if distinct_keys(s) {
            assert(distinct_keys(d)) by {
                assert forall|i: int, j: int| 0 <= i < j < d.len() implies d[i].0 != d[j].0 by {
                    assert(d[i] == s[i] && d[j] == s[j]);
                }
            }
            assert forall|i: int, j: int| 0 <= i < j < w.len() implies w[i].0 != w[j].0 by {
                if j == r.len() {
                    let m = choose|m: int| 0 <= m < d.len() && d[m].0 == r[i].0;
                    assert(d[m] == s[m]);
                }
            }
        }
    }
}

proof fn lemma_apply_callback_distinct(s: Seq<Entry>, p: bool, c: Callback)
    requires
        distinct_keys(s),
    ensures
        distinct_keys(apply_callback(s, p, c).0),
{
    let r = apply_callback(s, p, c).0;
    match c {
        Callback::RegisterFunction { id, .. } => {
            lemma_last_key_index(s, Key(id));
            assert forall|i: int, j: int| 0 <= i < j < r.len() implies r[i].0 != r[j].0 by {
                if j == s.len() {
                    assert(r[i] == s[i]);
                }
            }
        },
        Callback::RegisterStaticFunction { id, .. } => {
            assert forall|i: int, j: int| 0 <= i < j < r.len() implies r[i].0 != r[j].0 by {
                if j == s.len() {
                    assert(r[i] == s[i]);
                }
            }
        },
        Callback::Unregister { id } => {
            lemma_last_key_index(s, Key(id));
            let i0 = last_key_index(s, Key(id));
            if i0 >= 0 {
                assert forall|a: int, b: int| 0 <= a < b < r.len() implies r[a].0 != r[b].0 by {
                    let a2 = if a < i0 { a } else { a + 1 };
                    let b2 = if b < i0 { b } else { b + 1 };
                    assert(r[a] == s[a2] && r[b] == s[b2]);
                }
            }
        },
        Callback::Filter { id, target, add } => {
            if add {
                lemma_last_addable_index(s, Key(id), target);
            } else {
                lemma_remove_filter(s, Key(id), target);
            }
        },
        Callback::SetLifetime { id, .. } => {
            lemma_last_key_index(s, Key(id));
        },
        Callback::FireCallbacks(_) => {},
    }
}

/// Applying any run of requests to callbacks whose keys are distinct leaves
/// them distinct: a registration under a key already present is ignored.
pub proof fn law_requests_keep_keys_distinct(s: Seq<Entry>, p: bool, cs: Seq<Callback>)
    requires
        distinct_keys(s),
    ensures
        distinct_keys(apply_callbacks(s, p, cs).0),
{
    lemma_apply_callbacks_distinct(s, p, cs);
}

proof fn lemma_apply_callbacks_distinct(s: Seq<Entry>, p: bool, cs: Seq<Callback>)
    requires
        distinct_keys(s),
    ensures
        distinct_keys(apply_callbacks(s, p, cs).0),
    decreases cs.len(),
{
    if cs.len() > 0 {
        lemma_apply_callbacks_distinct(s, p, cs.drop_last());
        let (s1, p1) = apply_callbacks(s, p, cs.drop_last());
        lemma_apply_callback_distinct(s1, p1, cs.last());
    }
}

/// The callbacks left in place by one request: the result when it is
/// published, the former callbacks otherwise.
pub open spec fn after_request(s: Seq<Entry>, c: Callback) -> Seq<Entry> {
    let (r, p) = apply_callbacks(s, false, seq![c]);
    if p {
        r
    } else {
        s
    }
}

proof fn lemma_single_request(s: Seq<Entry>, c: Callback)
    ensures
        apply_callbacks(s, false, seq![c]) == apply_callback(s, false, c),
{
    reveal_with_fuel(apply_callbacks, 2);
    assert(seq![c].drop_last() =~= Seq::<Callback>::empty());
}

/// A registered handler is known afterwards, whether it was new or not.
pub proof fn law_register_then_registered(s: Seq<Entry>, c: Callback)
    requires
        c is RegisterFunction || c is RegisterStaticFunction,
    ensures
        has_key(after_request(s, c), Key(
            match c {
                Callback::RegisterFunction { id, .. } => id,
                Callback::RegisterStaticFunction { id, .. } => id,
                _ => 0,
            },
        )),
{
    lemma_single_request(s, c);
    let r = after_request(s, c);
    match c {
        Callback::RegisterFunction { id, .. } => {
            if !has_key(s, Key(id)) {
                assert(r[s.len() as int].0 == Key(id));
            }
        },
        Callback::RegisterStaticFunction { id, .. } => {
            if !has_key(s, Key(id)) {
                assert(r[s.len() as int].0 == Key(id));
            }
        },
        _ => {},
    }
}

/// An unregistered handler is unknown afterwards.
pub proof fn law_unregister_then_unknown(s: Seq<Entry>, id: usize)
    requires
        distinct_keys(s),
    ensures
        !has_key(after_request(s, Callback::Unregister { id }), Key(id)),
{
    let c = Callback::Unregister { id };
    lemma_single_request(s, c);
    lemma_last_key_index(s, Key(id));
    let i = last_key_index(s, Key(id));
    if i >= 0 {
        let r = s.remove(i);
        assert forall|j: int| 0 <= j < r.len() implies r[j].0 != Key(id) by {
            if j < i {
                assert(r[j] == s[j]);
            } else {
                assert(r[j] == s[j + 1]);
            }
        }
    }
}

/// After a reset only callbacks that outlive the session are left.
pub proof fn law_reset_keeps_sticky_only(s: Seq<Entry>)
    ensures
        forall|i: int| 0 <= i < keep_sticky(s).len() ==> #[trigger] keep_sticky(s)[i].1.sticky,
        keep_sticky(s).len() == s.len() ==> forall|i: int| 0 <= i < s.len() ==> #[trigger] s[i].1.sticky,
    decreases s.len(),
{
    if s.len() > 0 {
        law_reset_keeps_sticky_only(s.drop_last());
        lemma_keep_sticky(s.drop_last());
        assert(s[s.len() - 1] == s.last());
        if keep_sticky(s).len() == s.len() {
            assert forall|i: int| 0 <= i < s.len() implies #[trigger] s[i].1.sticky by {
                if i < s.len() - 1 {
                    assert(s.drop_last()[i] == s[i]);
                }
            }
        }
    }
}

/// Setting the lifetime of a registered handler sets it.
pub proof fn law_set_lifetime(s: Seq<Entry>, id: usize, sticky: bool)
    requires
        distinct_keys(s),
        has_key(s, Key(id)),
    ensures
        forall|i: int|
            0 <= i < after_request(s, Callback::SetLifetime { id, sticky }).len()
                && #[trigger] after_request(s, Callback::SetLifetime { id, sticky })[i].0 == Key(id)
                ==> after_request(s, Callback::SetLifetime { id, sticky })[i].1.sticky == sticky,
{
    let c = Callback::SetLifetime { id, sticky };
    lemma_single_request(s, c);
    lemma_last_key_index(s, Key(id));
}

/// Adding a filter to a registered handler makes it filter by it.
pub proof fn law_filter_added(s: Seq<Entry>, id: usize, target: AnyTarget)
    requires
        distinct_keys(s),
        has_key(s, Key(id)),
    ensures
        forall|i: int|
            0 <= i < after_request(s, Callback::Filter { id, target, add: true }).len()
                && #[trigger] after_request(s, Callback::Filter { id, target, add: true })[i].0 == Key(id)
                ==> after_request(s, Callback::Filter { id, target, add: true })[i].1.targets.contains(target),
{
    let c = Callback::Filter { id, target, add: true };
    lemma_single_request(s, c);
    lemma_last_addable_index(s, Key(id), target);
    lemma_last_addable_none(s, Key(id), target);
    let k = last_addable_index(s, Key(id), target);
    if k >= 0 {
        let r = after_request(s, c);
        assert(r[k].1.targets.last() == target);
        assert(r[k].1.targets[r[k].1.targets.len() - 1] == target);
    }
}

proof fn lemma_last_addable_none(s: Seq<Entry>, k: Key, t: AnyTarget)
    ensures
        last_addable_index(s, k, t) < 0 ==> forall|i: int| 0 <= i < s.len() && #[trigger] s[i].0 == k
            ==> s[i].1.targets.contains(t),
    decreases s.len(),
{
    if s.len() > 0 {
        lemma_last_addable_none(s.drop_last(), k, t);
        if last_addable_index(s, k, t) < 0 {
            assert forall|i: int| 0 <= i < s.len() && #[trigger] s[i].0 == k implies s[i].1.targets.contains(t) by {
                if i < s.len() - 1 {
                    assert(s.drop_last()[i] == s[i]);
                } else {
                    assert(s[i] == s.last());
                }
            }
        }
    }
}

/// Some entry of `s` has key `k` and listens to `name`.
pub open spec fn key_listens(s: Seq<Entry>, k: Key, name: EventName) -> bool {
    exists|j: int| 0 <= j < s.len() && s[j].0 == k && s[j].1.event_name == name
}

/// Every callback an event fires listens to that event.
pub proof fn law_fired_callbacks_listen(s: Seq<Entry>, f: FireCallback)
    ensures
        forall|i: int| 0 <= i < fired_keys(s, f).len()
            ==> key_listens(s, #[trigger] fired_keys(s, f)[i], fire_event_name(f)),
    decreases s.len(),
{
    if s.len() > 0 {
        let d = s.drop_last();
        law_fired_callbacks_listen(d, f);
        let r = fired_keys(d, f);
        let w = fired_keys(s, f);
        assert forall|i: int| 0 <= i < w.len() implies key_listens(s, #[trigger] w[i], fire_event_name(f)) by {
            if i < r.len() {
                assert(w[i] == r[i]);
                assert(key_listens(d, r[i], fire_event_name(f)));
                let j = choose|j: int| 0 <= j < d.len() && d[j].0 == r[i] && d[j].1.event_name == fire_event_name(f);
                assert(s[j] == d[j]);
            } else {
                assert(spec_matches_filters(s.last().1, f));
                assert(w[i] == s[s.len() - 1].0);
            }
        }
    }
}

fn copy_targets(v: &Vec<AnyTarget>) -> (r: Vec<AnyTarget>)
    ensures
        r@ == v@,
{
    let mut r: Vec<AnyTarget> = Vec::new();
    let mut i: usize = 0;
    while i < v.len()
        invariant
            i <= v.len(),
            r@ == v@.take(i as int),
        decreases v.len() - i,
    {
        r.push(v[i]);
        i = i + 1;
        assert(r@ =~= v@.take(i as int));
    }
    assert(v@.take(v.len() as int) =~= v@);
    r
}

impl AudioEventCallback {
    /// A copy of the callback.
    pub fn duplicate(&self) -> (r: AudioEventCallback)
        ensures
            r@ == self@,
    {
        AudioEventCallback {
            callback: self.callback,
            targets: copy_targets(&self.targets),
            event_name: self.event_name,
            sticky: self.sticky,
        }
    }

    /// Whether the callback listens to `event_name` and, when it filters by
    /// event type, to `event_type`.
    pub fn matches(&self, event_name: EventName, event_type: EventActionType) -> (r: bool)
        ensures
            r == spec_matches(self@, event_name, event_type),
    {
        if self.event_name != event_name {
            return false;
        }
        let mut count: usize = 0;
        let mut found = false;
        let mut i: usize = 0;
        while i < self.targets.len()
            invariant
                i <= self.targets.len(),
                count <= i,
                (count == 0) <==> !(exists|j: int| 0 <= j < i && self.targets@[j] is Type),
                found <==> (exists|j: int| 0 <= j < i && self.targets@[j] == AnyTarget::Type(event_type)),
            decreases self.targets.len() - i,
        {
            match self.targets[i] {
                AnyTarget::Type(x) => {
                    count = count + 1;
                    if x == event_type {
                        found = true;
                    }
                },
                _ => {},
            }
            i = i + 1;
        }
        proof {
            if found {
                let j = choose|j: int| 0 <= j < self.targets.len() && self.targets@[j] == AnyTarget::Type(event_type);
                assert(self@.targets[j] == AnyTarget::Type(event_type));
            }
            if self@.targets.contains(AnyTarget::Type(event_type)) {
                let j = choose|j: int| 0 <= j < self@.targets.len() && self@.targets[j] == AnyTarget::Type(event_type);
                assert(self.targets@[j] == AnyTarget::Type(event_type));
            }
        }
        count == 0 || found
    }

    /// Whether `fire` fires the callback.
    pub fn matches_filters(&self, other: &FireCallback) -> (r: bool)
        ensures
            r == spec_matches_filters(self@, *other),
    {
        if self.event_name != other.event_name() {
            return false;
        }
        if self.targets.len() == 0 {
            return true;
        }
        let mut i: usize = 0;
        while i < self.targets.len()
            invariant
                i <= self.targets.len(),
                self.event_name == fire_event_name(*other),
                forall|j: int| 0 <= j < i ==> !target_accepts(#[trigger] self.targets@[j], *other),
            decreases self.targets.len() - i,
        {
            let accepted = match self.targets[i] {
                AnyTarget::Hook(x) => other.event_hook_type().bits == x.bits,
                AnyTarget::Type(x) => other.event_type() == x,
                AnyTarget::Wwise(x) => other.wwise_id() == x,
                AnyTarget::Id(x) => match other.entity_id() {
                    Some(entity_id) => entity_id == x,
                    None => false,
                },
                AnyTarget::EmitterName(x) => match other.emitter_name() {
                    Some(emitter_name) => emitter_name == x,
                    None => false,
                },
            };
            if accepted {
                assert(target_accepts(self@.targets[i as int], *other));
                return true;
            }
            i = i + 1;
        }
        false
    }
}

/// The published callbacks; no two share a key.
pub struct AudioEventCallbackSystem {
    callbacks: Vec<(Key, AudioEventCallback)>,
}

impl View for AudioEventCallbackSystem {
    type V = Seq<Entry>;

    closed spec fn view(&self) -> Seq<Entry> {
        entries_view(self.callbacks@)
    }
}

fn copy_entries(v: &Vec<(Key, AudioEventCallback)>) -> (r: Vec<(Key, AudioEventCallback)>)
    ensures
        entries_view(r@) == entries_view(v@),
{
    let mut r: Vec<(Key, AudioEventCallback)> = Vec::new();
    let mut i: usize = 0;
    while i < v.len()
        invariant
            i <= v.len(),
            r@.len() == i,
            entries_view(r@) == entries_view(v@.take(i as int)),
        decreases v.len() - i,
    {
        let e = (v[i].0, v[i].1.duplicate());
        let ghost before = r@;
        r.push(e);
        proof {
            assert forall|j: int| 0 <= j < i implies #[trigger] entries_view(before)[j] == entries_view(v@.take(i as int))[j] by {}
            assert forall|j: int| 0 <= j <= i implies #[trigger] entries_view(r@)[j] == entries_view(v@.take(i + 1))[j] by {
                if j < i {
                    assert(entries_view(before)[j] == (before[j].0, before[j].1@));
                    assert(r@[j] == before[j]);
                    assert(v@.take(i + 1)[j] == v@.take(i as int)[j]);
                } else {
                    assert(r@[j] == e);
                    assert(v@.take(i + 1)[j] == v@[j]);
                }
            }
            assert(entries_view(r@) =~= entries_view(v@.take(i + 1)));
        }
        i = i + 1;
    }
    assert(v@.take(v.len() as int) =~= v@);
    r
}

proof fn lemma_view_push(s: Seq<(Key, AudioEventCallback)>, e: (Key, AudioEventCallback))
    ensures
        entries_view(s.push(e)) == entries_view(s).push((e.0, e.1@)),
{
    assert(entries_view(s.push(e)) =~= entries_view(s).push((e.0, e.1@)));
}

proof fn lemma_view_update(s: Seq<(Key, AudioEventCallback)>, i: int, e: (Key, AudioEventCallback))
    requires
        0 <= i < s.len(),
    ensures
        entries_view(s.update(i, e)) == entries_view(s).update(i, (e.0, e.1@)),
{
    assert(entries_view(s.update(i, e)) =~= entries_view(s).update(i, (e.0, e.1@)));
}

proof fn lemma_view_remove(s: Seq<(Key, AudioEventCallback)>, i: int)
    requires
        0 <= i < s.len(),
    ensures
        entries_view(s.remove(i)) == entries_view(s).remove(i),
{
    assert forall|j: int| 0 <= j < s.len() - 1 implies #[trigger] entries_view(s.remove(i))[j]
        == entries_view(s).remove(i)[j] by {
        if j < i {
            assert(s.remove(i)[j] == s[j]);
        } else {
            assert(s.remove(i)[j] == s[j + 1]);
        }
    }
    assert(entries_view(s.remove(i)) =~= entries_view(s).remove(i));
}

fn targets_contain(v: &Vec<AnyTarget>, t: AnyTarget) -> (r: bool)
    ensures
        r == v@.contains(t),
{
    let mut i: usize = 0;
    while i < v.len()
        invariant
            i <= v.len(),
            forall|j: int| 0 <= j < i ==> #[trigger] v@[j] != t,
        decreases v.len() - i,
    {
        if v[i] == t {
            assert(v@[i as int] == t);
            return true;
        }
        i = i + 1;
    }
    false
}

fn last_target_position(v: &Vec<AnyTarget>, t: AnyTarget) -> (r: Option<usize>)
    ensures
        match r {
            None => last_target_index(v@, t) == -1,
            Some(i) => i as int == last_target_index(v@, t) && i < v.len(),
        },
{
    let mut i: usize = v.len();
    assert(v@.take(i as int) =~= v@);
    while i > 0
        invariant
            i <= v.len(),
            last_target_index(v@, t) == last_target_index(v@.take(i as int), t),
        decreases i,
    {
        let ghost w = v@.take(i as int);
        assert(w.drop_last() =~= v@.take(i - 1));
        assert(w.last() == v@[i - 1]);
        if v[i - 1] == t {
            return Some(i - 1);
        }
        i = i - 1;
    }
    None
}

fn last_key_position(v: &Vec<(Key, AudioEventCallback)>, k: Key) -> (r: Option<usize>)
    ensures
        match r {
            None => last_key_index(entries_view(v@), k) == -1,
            Some(i) => i as int == last_key_index(entries_view(v@), k) && i < v.len(),
        },
{
    let ghost s = entries_view(v@);
    let mut i: usize = v.len();
    assert(s.take(i as int) =~= s);
    while i > 0
        invariant
            i <= v.len(),
            s == entries_view(v@),
            last_key_index(s, k) == last_key_index(s.take(i as int), k),
        decreases i,
    {
        let ghost w = s.take(i as int);
        assert(w.drop_last() =~= s.take(i - 1));
        assert(w.last() == s[i - 1]);
        if v[i - 1].0 == k {
            return Some(i - 1);
        }
        i = i - 1;
    }
    None
}

fn first_key_position(v: &Vec<(Key, AudioEventCallback)>, k: Key) -> (r: Option<usize>)
    requires
        distinct_keys(entries_view(v@)),
    ensures
        match r {
            None => last_key_index(entries_view(v@), k) == -1,
            Some(i) => i as int == last_key_index(entries_view(v@), k) && i < v.len(),
        },
{
    let ghost s = entries_view(v@);
    proof {
        lemma_last_key_index(s, k);
    }
    let mut i: usize = 0;
    while i < v.len()
        invariant
            i <= v.len(),
            s == entries_view(v@),
            distinct_keys(s),
            -1 <= last_key_index(s, k) < s.len(),
            last_key_index(s, k) >= 0 ==> s[last_key_index(s, k)].0 == k,
            last_key_index(s, k) < 0 <==> !has_key(s, k),
            forall|j: int| 0 <= j < i ==> #[trigger] s[j].0 != k,
        decreases v.len() - i,
    {
        if v[i].0 == k {
            assert(s[i as int].0 == k);
            assert(has_key(s, k));
            return Some(i);
        }
        i = i + 1;
    }
    None
}

fn last_addable_position(v: &Vec<(Key, AudioEventCallback)>, k: Key, t: AnyTarget) -> (r: Option<usize>)
    ensures
        match r {
            None => last_addable_index(entries_view(v@), k, t) == -1,
            Some(i) => i as int == last_addable_index(entries_view(v@), k, t) && i < v.len(),
        },
{
    let ghost s = entries_view(v@);
    let mut i: usize = v.len();
    assert(s.take(i as int) =~= s);
    while i > 0
        invariant
            i <= v.len(),
            s == entries_view(v@),
            last_addable_index(s, k, t) == last_addable_index(s.take(i as int), k, t),
        decreases i,
    {
        let ghost w = s.take(i as int);
        assert(w.drop_last() =~= s.take(i - 1));
        assert(w.last() == s[i - 1]);
        if v[i - 1].0 == k && !targets_contain(&v[i - 1].1.targets, t) {
            return Some(i - 1);
        }
        i = i - 1;
    }
    None
}

fn retain_remove_filter(v: &Vec<(Key, AudioEventCallback)>, k: Key, t: AnyTarget) -> (r: (Vec<(Key, AudioEventCallback)>, bool))
    ensures
        (entries_view(r.0@), r.1) == remove_filter(entries_view(v@), k, t),
{
    let ghost s = entries_view(v@);
    let mut out: Vec<(Key, AudioEventCallback)> = Vec::new();
    let mut changed = false;
    let mut i: usize = 0;
    while i < v.len()
        invariant
            i <= v.len(),
            s == entries_view(v@),
            (entries_view(out@), changed) == remove_filter(s.take(i as int), k, t),
        decreases v.len() - i,
    {
        let ghost w = s.take(i + 1);
        assert(w.drop_last() =~= s.take(i as int));
        assert(w.last() == s[i as int]);
        let x = &v[i];
        let ghost before = out@;
        if x.0 != k {
            let e = (x.0, x.1.duplicate());
            out.push(e);
            proof { lemma_view_push(before, e); }
        } else {
            match last_target_position(&x.1.targets, t) {
                None => {
                    let e = (x.0, x.1.duplicate());
                    out.push(e);
                    proof { lemma_view_push(before, e); }
                },
                Some(j) => {
                    let mut cb = x.1.duplicate();
                    cb.targets.remove(j);
                    changed = true;
                    if cb.targets.len() != 0 {
                        let e = (x.0, cb);
                        out.push(e);
                        proof {
                            lemma_view_push(before, e);
                            assert(e.1@ == (CallbackView { targets: s[i as int].1.targets.remove(j as int), ..s[i as int].1 }));
                        }
                    }
                },
            }
        }
        i = i + 1;
    }
    assert(s.take(v.len() as int) =~= s);
    (out, changed)
}

fn retain_sticky(v: &Vec<(Key, AudioEventCallback)>) -> (r: Vec<(Key, AudioEventCallback)>)
    ensures
        entries_view(r@) == keep_sticky(entries_view(v@)),
{
    let ghost s = entries_view(v@);
    let mut out: Vec<(Key, AudioEventCallback)> = Vec::new();
    let mut i: usize = 0;
    while i < v.len()
        invariant
            i <= v.len(),
            s == entries_view(v@),
            entries_view(out@) == keep_sticky(s.take(i as int)),
        decreases v.len() - i,
    {
        let ghost w = s.take(i + 1);
        assert(w.drop_last() =~= s.take(i as int));
        assert(w.last() == s[i as int]);
        if v[i].1.sticky {
            let e = (v[i].0, v[i].1.duplicate());
            let ghost before = out@;
            out.push(e);
            proof { lemma_view_push(before, e); }
        }
        i = i + 1;
    }
    assert(s.take(v.len() as int) =~= s);
    out
}

impl AudioEventCallbackSystem {
    pub open spec fn wf(&self) -> bool {
        distinct_keys(self@)
    }

    #[verifier::type_invariant]
    spec fn inv(&self) -> bool {
        distinct_keys(entries_view(self.callbacks@))
    }

    pub fn new() -> (r: AudioEventCallbackSystem)
        ensures
            r@ == Seq::<Entry>::empty(),
            r.wf(),
    {
        let r = AudioEventCallbackSystem { callbacks: Vec::new() };
        assert(entries_view(r.callbacks@) =~= Seq::<Entry>::empty());
        r
    }

    /// Applies the pending requests in order and publishes the result when
    /// one of them changed the callbacks; fired events are ignored here.
    /// Returns whether the callbacks were published.
    pub fn update_callbacks(&mut self, pending: Vec<Callback>) -> (published: bool)
        ensures
            published == apply_callbacks(old(self)@, false, pending@).1,
            final(self)@ == (if published {
                apply_callbacks(old(self)@, false, pending@).0
            } else {
                old(self)@
            }),
            old(self).wf(),
            final(self).wf(),
    {
        proof {
            use_type_invariant(&*self);
        }
        if pending.len() == 0 {
            return false;
        }
        let mut next = copy_entries(&self.callbacks);
        let mut should_publish = false;
        let mut k: usize = 0;
        while k < pending.len()
            invariant
                k <= pending.len(),
                (entries_view(next@), should_publish) == apply_callbacks(self@, false, pending@.take(k as int)),
                distinct_keys(entries_view(next@)),
            decreases pending.len() - k,
        {
            let ghost s = entries_view(next@);
            let ghost ns = pending@.take(k + 1);
            assert(ns.drop_last() =~= pending@.take(k as int));
            assert(ns.last() == pending@[k as int]);
            proof {
                lemma_apply_callback_distinct(s, should_publish, pending@[k as int]);
            }
            match pending[k] {
                Callback::RegisterFunction { event_name, target, function_name, id } => {
                    let found = last_key_position(&next, Key(id));
                    proof { lemma_last_key_index(s, Key(id)); }
                    if found.is_none() {
                        let e = (Key(id), AudioEventCallback {
                            callback: CallbackFunction::Member(MemberFunc { target, function_name }),
                            targets: Vec::new(),
                            event_name,
                            sticky: false,
                        });
                        let ghost before = next@;
                        next.push(e);
                        proof {
                            lemma_view_push(before, e);
                            assert(e.1@ == new_callback(CallbackFunction::Member(MemberFunc { target, function_name }), event_name));
                        }
                        should_publish = true;
                    }
                },
                Callback::RegisterStaticFunction { event_name, class_name, function_name, id } => {
                    let found = last_key_position(&next, Key(id));
                    proof { lemma_last_key_index(s, Key(id)); }
                    if found.is_none() {
                        let e = (Key(id), AudioEventCallback {
                            callback: CallbackFunction::Static(StaticFunc { class_name, function_name }),
                            targets: Vec::new(),
                            event_name,
                            sticky: false,
                        });
                        let ghost before = next@;
                        next.push(e);
                        proof {
                            lemma_view_push(before, e);
                            assert(e.1@ == new_callback(CallbackFunction::Static(StaticFunc { class_name, function_name }), event_name));
                        }
                        should_publish = true;
                    }
                },
                Callback::FireCallbacks(_) => {},
                Callback::Unregister { id } => {
                    if let Some(idx) = first_key_position(&next, Key(id)) {
                        let ghost before = next@;
                        next.remove(idx);
                        proof { lemma_view_remove(before, idx as int); }
                        should_publish = true;
                    }
                },
                Callback::Filter { id, target, add } => {
                    if add {
                        if let Some(idx) = last_addable_position(&next, Key(id), target) {
                            proof { lemma_last_addable_index(s, Key(id), target); }
                            let mut cb = next[idx].1.duplicate();
                            cb.targets.push(target);
                            let e = (Key(id), cb);
                            let ghost before = next@;
                            next.set(idx, e);
                            proof {
                                lemma_view_update(before, idx as int, e);
                                assert(e.1@ == (CallbackView { targets: s[idx as int].1.targets.push(target), ..s[idx as int].1 }));
                            }
                            should_publish = true;
                        }
                    } else {
                        let (out, changed) = retain_remove_filter(&next, Key(id), target);
                        next = out;
                        should_publish = should_publish || changed;
                    }
                },
                Callback::SetLifetime { id, sticky } => {
                    if let Some(idx) = last_key_position(&next, Key(id)) {
                        proof { lemma_last_key_index(s, Key(id)); }
                        if next[idx].1.sticky != sticky {
                            let mut cb = next[idx].1.duplicate();
                            cb.sticky = sticky;
                            let e = (Key(id), cb);
                            let ghost before = next@;
                            next.set(idx, e);
                            proof {
                                lemma_view_update(before, idx as int, e);
                                assert(e.1@ == (CallbackView { sticky, ..s[idx as int].1 }));
                            }
                            should_publish = true;
                        }
                    }
                },
            }
            k = k + 1;
        }
        assert(pending@.take(pending.len() as int) =~= pending@);
        if should_publish {
            self.callbacks = next;
        }
        should_publish
    }

    /// Drops the callbacks that do not outlive the session; publishes only
    /// when some were dropped. Returns whether it published.
    pub fn reset_callbacks(&mut self) -> (published: bool)
        ensures
            published == (keep_sticky(old(self)@).len() != old(self)@.len()),
            final(self)@ == (if published {
                keep_sticky(old(self)@)
            } else {
                old(self)@
            }),
            old(self).wf(),
            final(self).wf(),
    {
        proof {
            use_type_invariant(&*self);
            lemma_keep_sticky(self@);
        }
        let before = self.callbacks.len();
        let next = retain_sticky(&self.callbacks);
        let after = next.len();
        assert(entries_view(next@).len() == after);
        if before != after {
            self.callbacks = next;
            true
        } else {
            false
        }
    }

    /// Whether some callback listens to `event_name` for `event_type`.
    pub fn any_callback(&self, event_name: EventName, event_type: EventActionType) -> (r: bool)
        ensures
            r == exists|i: int| 0 <= i < self@.len() && spec_matches(#[trigger] self@[i].1, event_name, event_type),
    {
        let mut i: usize = 0;
        while i < self.callbacks.len()
            invariant
                i <= self.callbacks.len(),
                self@ == entries_view(self.callbacks@),
                forall|j: int| 0 <= j < i ==> !spec_matches(#[trigger] self@[j].1, event_name, event_type),
            decreases self.callbacks.len() - i,
        {
            if self.callbacks[i].1.matches(event_name, event_type) {
                assert(self@[i as int].1 == self.callbacks@[i as int].1@);
                return true;
            }
            i = i + 1;
        }
        false
    }

    /// Whether a callback is registered under `handler_id`.
    pub fn is_registered(&self, handler_id: usize) -> (r: bool)
        ensures
            r == has_key(self@, Key(handler_id)),
    {
        let mut i: usize = 0;
        while i < self.callbacks.len()
            invariant
                i <= self.callbacks.len(),
                self@ == entries_view(self.callbacks@),
                forall|j: int| 0 <= j < i ==> #[trigger] self@[j].0 != Key(handler_id),
            decreases self.callbacks.len() - i,
        {
            if self.callbacks[i].0 == Key(handler_id) {
                assert(self@[i as int].0 == Key(handler_id));
                return true;
            }
            i = i + 1;
        }
        false
    }

    /// The keys of the callbacks that `fire` fires, in registration order.
    pub fn dispatch(&self, fire: &FireCallback) -> (r: Vec<Key>)
        ensures
            r@ == fired_keys(self@, *fire),
    {
        let mut r: Vec<Key> = Vec::new();
        let mut i: usize = 0;
        while i < self.callbacks.len()
            invariant
                i <= self.callbacks.len(),
                self@ == entries_view(self.callbacks@),
                r@ == fired_keys(self@.take(i as int), *fire),
            decreases self.callbacks.len() - i,
        {
            let ghost t = self@.take(i + 1);
            assert(t.drop_last() =~= self@.take(i as int));
            assert(t.last() == self@[i as int]);
            if self.callbacks[i].1.matches_filters(fire) {
                r.push(self.callbacks[i].0);
            }
            i = i + 1;
        }
        assert(self@.take(self@.len() as int) =~= self@);
        r
    }
}

/// The counter that callback handler ids are drawn from.
pub struct HandlerCounter {
    pub next: usize,
}

impl HandlerCounter {
    /// A counter that starts at 0.
    pub fn new() -> (r: HandlerCounter)
        ensures
            r.next == 0,
    {
        HandlerCounter { next: 0 }
    }

    fn draw(&mut self) -> (r: usize)
        ensures
            r == old(self).next,
            final(self).next == after_draw(old(self).next),
    {
        let id = self.next;
        self.next = self.next.wrapping_add(1);
        id
    }
}

impl AudioEventCallbackSystem {
    /// The request to register a callback on a method of a script object:
    /// refused for an undefined event or function name or a missing target,
    /// checked in that order; otherwise its handler id is drawn.
    pub fn register_callback(
        counter: &mut HandlerCounter,
        event_name: CName,
        target: Option<ScriptRef>,
        function_name: CName,
    ) -> (r: Option<Callback>)
        ensures
            (!event_name.spec_is_defined() || !function_name.spec_is_defined() || target is None) ==> {
                &&& r is None
                &&& final(counter).next == old(counter).next
            },
            (event_name.spec_is_defined() && function_name.spec_is_defined() && target is Some) ==> {
                &&& r == Some(Callback::RegisterFunction {
                    event_name: EventName(event_name),
                    target: target.unwrap(),
                    function_name: FunctionName(function_name),
                    id: old(counter).next,
                })
                &&& final(counter).next == after_draw(old(counter).next)
            },
    {
        let event_name = match EventName::try_new(event_name) {
            Ok(x) => x,
            Err(_) => return None,
        };
        let function_name = match FunctionName::try_new(function_name) {
            Ok(x) => x,
            Err(_) => return None,
        };
        let target = match target {
            Some(t) => t,
            None => return None,
        };
        let id = counter.draw();
        Some(Callback::RegisterFunction { event_name, target, function_name, id })
    }

    /// The request to register a callback on a static function of a script
    /// class: refused for an undefined event, class or function name,
    /// checked in that order; otherwise its handler id is drawn.
    pub fn register_static_callback(
        counter: &mut HandlerCounter,
        event_name: CName,
        class_name: CName,
        function_name: CName,
    ) -> (r: Option<Callback>)
        ensures
            (!event_name.spec_is_defined() || !class_name.spec_is_defined() || !function_name.spec_is_defined()) ==> {
                &&& r is None
                &&& final(counter).next == old(counter).next
            },
            (event_name.spec_is_defined() && class_name.spec_is_defined() && function_name.spec_is_defined()) ==> {
                &&& r == Some(Callback::RegisterStaticFunction {
                    event_name: EventName(event_name),
                    class_name: ClassName(class_name),
                    function_name: FunctionName(function_name),
                    id: old(counter).next,
                })
                &&& final(counter).next == after_draw(old(counter).next)
            },
    {
        let event_name = match EventName::try_new(event_name) {
            Ok(x) => x,
            Err(_) => return None,
        };
        let class_name = match ClassName::try_new(class_name) {
            Ok(x) => x,
            Err(_) => return None,
        };
        let function_name = match FunctionName::try_new(function_name) {
            Ok(x) => x,
            Err(_) => return None,
        };
        let id = counter.draw();
        Some(Callback::RegisterStaticFunction { event_name, class_name, function_name, id })
    }
}

} // verus!
