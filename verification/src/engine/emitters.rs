//! The emitters that mods register on game entities: which entity carries
//! which tags, which tags are still registered, and what becomes of an
//! entity's emitters when it dies.

use vstd::prelude::*;

use crate::names::{CName, EntityId};

verus! {

/// One emitter registered on an entity under a tag; `handle` is the sound
/// source that plays on it.
pub struct EmitterSlot<H> {
    pub handle: H,
    pub tag_name: CName,
    pub emitter_name: Option<CName>,
    pub persist_until_sounds_finish: bool,
}

/// A slot as the registry sees it: tag, emitter name, and whether its
/// sounds outlive the entity.
pub type SlotView = (CName, Option<CName>, bool);

/// The emitters registered on one entity, and whether the entity died
/// while some of them still had to finish their sounds.
pub struct EmitterSlots<H> {
    pub entity_id: EntityId,
    pub slots: Vec<EmitterSlot<H>>,
    pub marked_for_death: bool,
}

/// An entity as the registry sees it: entity, slots, marked for death.
pub type EntryView = (EntityId, Seq<SlotView>, bool);

/// The registry as a whole: entities in order, and the registered pairs of
/// entity and tag.
pub struct EmittersView {
    pub entries: Seq<EntryView>,
    pub registered: Seq<(EntityId, CName)>,
}

impl<H> View for EmitterSlot<H> {
    type V = SlotView;

    open spec fn view(&self) -> SlotView {
        (self.tag_name, self.emitter_name, self.persist_until_sounds_finish)
    }
}

pub open spec fn slots_view<H>(s: Seq<EmitterSlot<H>>) -> Seq<SlotView> {
    s.map_values(|x: EmitterSlot<H>| x@)
}

/// The slots, handles included, that stay when the tag `t` goes, or with
/// no tag, when their entity dies.
pub open spec fn kept_slots<H>(s: Seq<EmitterSlot<H>>, t: Option<CName>) -> Seq<EmitterSlot<H>> {
    s.filter(|x: EmitterSlot<H>| keeps_slot(x@, t))
}

/// The slots, handles included, that go when the tag `t` goes, or with no
/// tag, when their entity dies: those whose sounds need not finish.
pub open spec fn dropped_slots<H>(s: Seq<EmitterSlot<H>>, t: Option<CName>) -> Seq<EmitterSlot<H>> {
    s.filter(|x: EmitterSlot<H>| !keeps_slot(x@, t))
}

/// How the entries, handles included, change when the slots at index `i`
/// are narrowed to those that stay: the entry goes when none stays, else it
/// keeps exactly those slots, in order; every other entry is unchanged.
pub open spec fn raw_narrowed<H>(
    before: Seq<EmitterSlots<H>>,
    after: Seq<EmitterSlots<H>>,
    i: int,
    t: Option<CName>,
) -> bool {
    if i < 0 {
        after == before
    } else if kept_slots(before[i].slots@, t).len() == 0 {
        after == before.remove(i)
    } else {
        &&& after.len() == before.len()
        &&& forall|j: int| 0 <= j < before.len() && j != i ==> after[j] == before[j]
        &&& after[i].entity_id == before[i].entity_id
        &&& after[i].slots@ == kept_slots(before[i].slots@, t)
        &&& after[i].marked_for_death == (if t is None { true } else { before[i].marked_for_death })
    }
}

/// How the entries, handles included, change when `slot` is added to the
/// entity at index `i` (or, with `i` negative, to a new entity `e`).
pub open spec fn raw_added<H>(
    before: Seq<EmitterSlots<H>>,
    after: Seq<EmitterSlots<H>>,
    i: int,
    e: EntityId,
    slot: EmitterSlot<H>,
) -> bool {
    if i < 0 {
        &&& after.len() == before.len() + 1
        &&& forall|j: int| 0 <= j < before.len() ==> after[j] == before[j]
        &&& after.last().entity_id == e
        &&& after.last().slots@ == seq![slot]
        &&& !after.last().marked_for_death
    } else {
        &&& after.len() == before.len()
        &&& forall|j: int| 0 <= j < before.len() && j != i ==> after[j] == before[j]
        &&& after[i].entity_id == before[i].entity_id
        &&& after[i].slots@ == before[i].slots@.push(slot)
        &&& after[i].marked_for_death == before[i].marked_for_death
    }
}

impl<H> View for EmitterSlots<H> {
    type V = EntryView;

    open spec fn view(&self) -> EntryView {
        (self.entity_id, slots_view(self.slots@), self.marked_for_death)
    }
}

pub open spec fn entries_view<H>(s: Seq<EmitterSlots<H>>) -> Seq<EntryView> {
    s.map_values(|x: EmitterSlots<H>| x@)
}

/// The index of the last entry of `e`, or -1.
pub open spec fn entity_index(s: Seq<EntryView>, e: EntityId) -> int
    decreases s.len(),
{
    if s.len() == 0 {
        -1
    } else if s.last().0 == e {
        s.len() - 1
    } else {
        entity_index(s.drop_last(), e)
    }
}

pub open spec fn has_tag(slots: Seq<SlotView>, t: CName) -> bool {
    exists|a: int| 0 <= a < slots.len() && (#[trigger] slots[a]).0 == t
}

/// An emitter of entity `e` is registered under tag `t`.
pub open spec fn spec_exists_tag(v: EmittersView, e: EntityId, t: CName) -> bool {
    let i = entity_index(v.entries, e);
    i >= 0 && has_tag(v.entries[i].1, t)
}

/// The pair is registered, or with no tag, some pair of the entity is.
pub open spec fn spec_is_registered(v: EmittersView, e: EntityId, t: Option<CName>) -> bool {
    match t {
        Some(t) => v.registered.contains((e, t)),
        None => exists|k: int| 0 <= k < v.registered.len() && (#[trigger] v.registered[k]).0 == e,
    }
}

pub open spec fn distinct_tags(slots: Seq<SlotView>) -> bool {
    forall|a: int, b: int| 0 <= a < b < slots.len() ==> (#[trigger] slots[a]).0 != (#[trigger] slots[b]).0
}

pub open spec fn distinct_entities(s: Seq<EntryView>) -> bool {
    forall|i: int, j: int| 0 <= i < j < s.len() ==> (#[trigger] s[i]).0 != (#[trigger] s[j]).0
}

/// The registry is consistent: each entity once, with slots under distinct
/// tags, and every registered pair stands for a slot.
pub open spec fn emitters_wf(v: EmittersView) -> bool {
    &&& distinct_entities(v.entries)
    &&& forall|i: int| 0 <= i < v.entries.len() ==> (#[trigger] v.entries[i]).1.len() > 0
    &&& forall|i: int| 0 <= i < v.entries.len() ==> distinct_tags((#[trigger] v.entries[i]).1)
    &&& v.registered.no_duplicates()
    &&& forall|k: int| 0 <= k < v.registered.len()
        ==> spec_exists_tag(v, (#[trigger] v.registered[k]).0, v.registered[k].1)
}

/// The registry once a slot is added for `e` under `t`, which is new.
pub open spec fn after_add(v: EmittersView, e: EntityId, slot: SlotView) -> EmittersView {
    let i = entity_index(v.entries, e);
    EmittersView {
        entries: if i < 0 {
            v.entries.push((e, seq![slot], false))
        } else {
            v.entries.update(i, (e, v.entries[i].1.push(slot), v.entries[i].2))
        },
        registered: v.registered.push((e, slot.0)),
    }
}

/// Whether a pair stays registered when the tag `t` of `e` goes, or with
/// no tag, when `e` goes.
pub open spec fn keeps_pair(p: (EntityId, CName), e: EntityId, t: Option<CName>) -> bool {
    match t {
        Some(t) => p != (e, t),
        None => p.0 != e,
    }
}

/// Whether a slot stays when its tag `t` goes, or with no tag, when its
/// entity dies: it stays then only if its sounds must finish.
pub open spec fn keeps_slot(x: SlotView, t: Option<CName>) -> bool {
    match t {
        Some(t) => x.0 != t,
        None => x.2,
    }
}

pub open spec fn drops_slot(x: SlotView, t: Option<CName>) -> bool {
    !keeps_slot(x, t)
}

/// The entries once the slots of `e` are narrowed to those that stay.
pub open spec fn narrowed(s: Seq<EntryView>, e: EntityId, t: Option<CName>) -> Seq<EntryView> {
    let i = entity_index(s, e);
    if i < 0 {
        s
    } else {
        let kept = s[i].1.filter(|x: SlotView| keeps_slot(x, t));
        if kept.len() == 0 {
            s.remove(i)
        } else {
            s.update(i, (e, kept, if t is None { true } else { s[i].2 }))
        }
    }
}

/// The registry once the tag `t` of `e` is unregistered; whether `e` had
/// an entry.
pub open spec fn after_unregister(v: EmittersView, e: EntityId, t: CName) -> (EmittersView, bool) {
    if entity_index(v.entries, e) < 0 {
        (v, false)
    } else {
        (
            EmittersView {
                entries: narrowed(v.entries, e, Some(t)),
                registered: v.registered.filter(|p: (EntityId, CName)| keeps_pair(p, e, Some(t))),
            },
            true,
        )
    }
}

/// The registry once `e` dies: only its slots whose sounds must finish
/// stay, the entity is marked for death if any does, and none of its pairs
/// is registered any more.
pub open spec fn after_dies(v: EmittersView, e: EntityId) -> EmittersView {
    EmittersView {
        entries: narrowed(v.entries, e, None),
        registered: v.registered.filter(|p: (EntityId, CName)| keeps_pair(p, e, None)),
    }
}

/// The slots that stop when their entity dies.
pub open spec fn stopped_on_death(v: EmittersView, e: EntityId) -> Seq<SlotView> {
    let i = entity_index(v.entries, e);
    if i < 0 {
        Seq::empty()
    } else {
        v.entries[i].1.filter(|x: SlotView| drops_slot(x, None))
    }
}

/// The registry without the entity `e`.
pub open spec fn after_remove_entity(v: EmittersView, e: EntityId) -> EmittersView {
    let i = entity_index(v.entries, e);
    EmittersView {
        entries: if i < 0 { v.entries } else { v.entries.remove(i) },
        registered: v.registered.filter(|p: (EntityId, CName)| keeps_pair(p, e, None)),
    }
}

pub proof fn lemma_entity_index(s: Seq<EntryView>, e: EntityId)
    ensures
        -1 <= entity_index(s, e) < s.len(),
        entity_index(s, e) >= 0 ==> s[entity_index(s, e)].0 == e,
        entity_index(s, e) < 0 ==> forall|j: int| 0 <= j < s.len() ==> (#[trigger] s[j]).0 != e,
    decreases s.len(),
{
    if s.len() > 0 {
        lemma_entity_index(s.drop_last(), e);
        if entity_index(s, e) < 0 {
            assert forall|j: int| 0 <= j < s.len() implies (#[trigger] s[j]).0 != e by {
                if j < s.len() - 1 {
                    assert(s.drop_last()[j] == s[j]);
                }
            }
        } else if s.last().0 != e {
            let k = entity_index(s.drop_last(), e);
            assert(s.drop_last()[k] == s[k]);
        }
    }
}

/// In a registry with each entity once, the entry of `e` is the one at `j`.
pub proof fn lemma_entity_at(s: Seq<EntryView>, e: EntityId, j: int)
    requires
        distinct_entities(s),
        0 <= j < s.len(),
        s[j].0 == e,
    ensures
        entity_index(s, e) == j,
{
    lemma_entity_index(s, e);
    let i = entity_index(s, e);
    if i != j {
        assert(s[i].0 == s[j].0);
    }
}

/// One step of a filter over a prefix.
pub proof fn lemma_filter_step<A>(s: Seq<A>, p: spec_fn(A) -> bool, i: int)
    requires
        0 <= i < s.len(),
    ensures
        s.take(i + 1).filter(p) == if p(s[i]) {
            s.take(i).filter(p).push(s[i])
        } else {
            s.take(i).filter(p)
        },
{
    reveal(Seq::filter);
    assert(s.take(i + 1).drop_last() =~= s.take(i));
    assert(s.take(i + 1).last() == s[i]);
}

/// A filter keeps only elements of the sequence that pass it, and keeps
/// every such element.
pub proof fn lemma_filter_elements<A>(s: Seq<A>, p: spec_fn(A) -> bool)
    ensures
        forall|k: int| 0 <= k < s.filter(p).len() ==> p(#[trigger] s.filter(p)[k]) && s.contains(s.filter(p)[k]),
        forall|x: A| s.contains(x) && p(x) ==> #[trigger] s.filter(p).contains(x),
{
    broadcast use vstd::seq_lib::group_filter_ensures;
    assert forall|k: int| 0 <= k < s.filter(p).len() implies p(#[trigger] s.filter(p)[k]) && s.contains(s.filter(p)[k]) by {
        s.lemma_filter_contains_rev(p, s.filter(p)[k]);
    }
    assert forall|x: A| s.contains(x) && p(x) implies #[trigger] s.filter(p).contains(x) by {
        let j = choose|j: int| 0 <= j < s.len() && s[j] == x;
        s.lemma_filter_contains(p, j);
    }
}

/// Filtering keeps elements distinct.
pub proof fn lemma_filter_distinct<A>(s: Seq<A>, p: spec_fn(A) -> bool)
    requires
        s.no_duplicates(),
    ensures
        s.filter(p).no_duplicates(),
    decreases s.len(),
{
    reveal(Seq::filter);
    if s.len() > 0 {
        let d = s.drop_last();
        assert(d.no_duplicates()) by {
            assert forall|a: int, b: int| 0 <= a < b < d.len() implies d[a] != d[b] by {
                assert(d[a] == s[a] && d[b] == s[b]);
            }
        }
        lemma_filter_distinct(d, p);
        lemma_filter_elements(d, p);
        if p(s.last()) {
            let f = d.filter(p);
            let g = f.push(s.last());
            assert forall|a: int, b: int| 0 <= a < b < g.len() implies g[a] != g[b] by {
                if b == f.len() {
                    assert(g[a] == f[a]);
                    assert(d.contains(f[a]));
                    let j = choose|j: int| 0 <= j < d.len() && d[j] == f[a];
                    assert(s[j] == d[j]);
                }
            }
        }
    }
}

/// Filtering slots keeps their tags distinct.
pub proof fn lemma_filter_distinct_tags(s: Seq<SlotView>, p: spec_fn(SlotView) -> bool)
    requires
        distinct_tags(s),
    ensures
        distinct_tags(s.filter(p)),
    decreases s.len(),
{
    reveal(Seq::filter);
    if s.len() > 0 {
        let d = s.drop_last();
        assert(distinct_tags(d)) by {
            assert forall|a: int, b: int| 0 <= a < b < d.len() implies (#[trigger] d[a]).0 != (#[trigger] d[b]).0 by {
                assert(d[a] == s[a] && d[b] == s[b]);
            }
        }
        lemma_filter_distinct_tags(d, p);
        lemma_filter_elements(d, p);
        if p(s.last()) {
            let f = d.filter(p);
            let g = f.push(s.last());
            assert forall|a: int, b: int| 0 <= a < b < g.len() implies (#[trigger] g[a]).0 != (#[trigger] g[b]).0 by {
                if b == f.len() {
                    assert(g[a] == f[a]);
                    assert(d.contains(f[a]));
                    let j = choose|j: int| 0 <= j < d.len() && d[j] == f[a];
                    assert(s[j] == d[j]);
                } else {
                    assert(g[a] == f[a] && g[b] == f[b]);
                }
            }
        }
    }
}

/// Adding a slot under a new tag keeps the registry consistent.
pub proof fn lemma_add_wf(v: EmittersView, e: EntityId, slot: SlotView)
    requires
        emitters_wf(v),
        !spec_exists_tag(v, e, slot.0),
    ensures
        emitters_wf(after_add(v, e, slot)),
{
    lemma_entity_index(v.entries, e);
    let i = entity_index(v.entries, e);
    let w = after_add(v, e, slot);
    assert(distinct_entities(w.entries)) by {
        assert forall|a: int, b: int| 0 <= a < b < w.entries.len() implies (#[trigger] w.entries[a]).0 != (#[trigger] w.entries[b]).0 by {
            if i < 0 {
                if b == v.entries.len() {
                    assert(w.entries[a] == v.entries[a]);
                } else {
                    assert(w.entries[a] == v.entries[a] && w.entries[b] == v.entries[b]);
                }
            } else {
                assert(w.entries[a].0 == v.entries[a].0 && w.entries[b].0 == v.entries[b].0);
            }
        }
    }
    assert forall|j: int| 0 <= j < w.entries.len() implies distinct_tags((#[trigger] w.entries[j]).1) by {
        if i >= 0 && j == i {
            let old_slots = v.entries[i].1;
            let n = old_slots.push(slot);
            assert(distinct_tags(old_slots));
            assert forall|a: int, b: int| 0 <= a < b < n.len() implies (#[trigger] n[a]).0 != (#[trigger] n[b]).0 by {
                if b == old_slots.len() {
                    assert(n[a] == old_slots[a]);
                    if old_slots[a].0 == slot.0 {
                        assert(has_tag(old_slots, slot.0));
                    }
                } else {
                    assert(n[a] == old_slots[a] && n[b] == old_slots[b]);
                }
            }
        } else if i < 0 && j == v.entries.len() {
            assert(w.entries[j].1 =~= seq![slot]);
        } else {
            assert(w.entries[j] == v.entries[j]);
        }
    }
    assert forall|j: int| 0 <= j < w.entries.len() implies (#[trigger] w.entries[j]).1.len() > 0 by {
        if !(i >= 0 && j == i) && !(i < 0 && j == v.entries.len()) {
            assert(w.entries[j] == v.entries[j]);
        }
    }
    assert(w.registered.no_duplicates()) by {
        assert forall|a: int, b: int| 0 <= a < b < w.registered.len() implies w.registered[a] != w.registered[b] by {
            if b == v.registered.len() {
                assert(w.registered[a] == v.registered[a]);
                if v.registered[a] == (e, slot.0) {
                    assert(spec_exists_tag(v, v.registered[a].0, v.registered[a].1));
                }
            }
        }
    }
    assert forall|k: int| 0 <= k < w.registered.len()
        implies spec_exists_tag(w, (#[trigger] w.registered[k]).0, w.registered[k].1) by {
        let (e2, t2) = w.registered[k];
        if k == v.registered.len() {
            if i < 0 {
                let j = v.entries.len() as int;
                lemma_entity_at(w.entries, e, j);
                assert(w.entries[j].1[0] == slot);
            } else {
                lemma_entity_at(w.entries, e, i);
                assert(w.entries[i].1[v.entries[i].1.len() as int] == slot);
            }
        } else {
            assert(w.registered[k] == v.registered[k]);
            assert(spec_exists_tag(v, e2, t2));
            lemma_entity_index(v.entries, e2);
            let i2 = entity_index(v.entries, e2);
            let a = choose|a: int| 0 <= a < v.entries[i2].1.len() && (#[trigger] v.entries[i2].1[a]).0 == t2;
            lemma_entity_at(w.entries, e2, i2);
            assert(w.entries[i2].1[a] == v.entries[i2].1[a]);
        }
    }
}

pub open spec fn nonempty_slots(s: Seq<EntryView>) -> bool {
    forall|i: int| 0 <= i < s.len() ==> (#[trigger] s[i]).1.len() > 0
}

pub open spec fn slots_distinct(s: Seq<EntryView>) -> bool {
    forall|i: int| 0 <= i < s.len() ==> distinct_tags((#[trigger] s[i]).1)
}

/// Narrowing the entry of `e` keeps the other entries, each entity once,
/// and every entry with distinct tags and some slot.
pub proof fn lemma_narrowed(s: Seq<EntryView>, e: EntityId, t: Option<CName>)
    requires
        distinct_entities(s),
        nonempty_slots(s),
        slots_distinct(s),
    ensures
        distinct_entities(narrowed(s, e, t)),
        nonempty_slots(narrowed(s, e, t)),
        slots_distinct(narrowed(s, e, t)),
        forall|j: int| 0 <= j < s.len() && (#[trigger] s[j]).0 != e
            ==> exists|k: int| 0 <= k < narrowed(s, e, t).len() && narrowed(s, e, t)[k] == s[j],
        forall|k: int| 0 <= k < narrowed(s, e, t).len() && (#[trigger] narrowed(s, e, t)[k]).0 != e
            ==> s.contains(narrowed(s, e, t)[k]),
{
    lemma_entity_index(s, e);
    let i = entity_index(s, e);
    let w = narrowed(s, e, t);
    if i >= 0 {
        let kept = s[i].1.filter(|x: SlotView| keeps_slot(x, t));
        if kept.len() == 0 {
            assert forall|a: int, b: int| 0 <= a < b < w.len() implies (#[trigger] w[a]).0 != (#[trigger] w[b]).0 by {
                let a2 = if a < i { a } else { a + 1 };
                let b2 = if b < i { b } else { b + 1 };
                assert(w[a] == s[a2] && w[b] == s[b2]);
            }
            assert forall|k: int| 0 <= k < w.len() implies (#[trigger] w[k]).1.len() > 0 && distinct_tags(w[k].1) by {
                let k2 = if k < i { k } else { k + 1 };
                assert(w[k] == s[k2]);
            }
            assert forall|j: int| 0 <= j < s.len() && (#[trigger] s[j]).0 != e
                implies exists|k: int| 0 <= k < w.len() && w[k] == s[j] by {
                let k = if j < i { j } else { j - 1 };
                assert(w[k] == s[j]);
            }
            assert forall|k: int| 0 <= k < w.len() && (#[trigger] w[k]).0 != e implies s.contains(w[k]) by {
                let k2 = if k < i { k } else { k + 1 };
                assert(w[k] == s[k2]);
            }
        } else {
            lemma_filter_distinct_tags(s[i].1, |x: SlotView| keeps_slot(x, t));
            assert forall|a: int, b: int| 0 <= a < b < w.len() implies (#[trigger] w[a]).0 != (#[trigger] w[b]).0 by {
                assert(w[a].0 == s[a].0 && w[b].0 == s[b].0);
            }
            assert forall|k: int| 0 <= k < w.len() implies (#[trigger] w[k]).1.len() > 0 && distinct_tags(w[k].1) by {
                if k != i {
                    assert(w[k] == s[k]);
                }
            }
            assert forall|j: int| 0 <= j < s.len() && (#[trigger] s[j]).0 != e
                implies exists|k: int| 0 <= k < w.len() && w[k] == s[j] by {
                assert(j != i);
                assert(w[j] == s[j]);
            }
            assert forall|k: int| 0 <= k < w.len() && (#[trigger] w[k]).0 != e implies s.contains(w[k]) by {
                assert(k != i);
                assert(w[k] == s[k]);
            }
        }
    } else {
        assert forall|j: int| 0 <= j < s.len() && (#[trigger] s[j]).0 != e
            implies exists|k: int| 0 <= k < w.len() && w[k] == s[j] by {
            assert(w[j] == s[j]);
        }
        assert forall|k: int| 0 <= k < w.len() && (#[trigger] w[k]).0 != e implies s.contains(w[k]) by {
            assert(w[k] == s[k]);
        }
    }
}

/// A registered pair of an entity that keeps its entry stays backed by a
/// slot.
pub proof fn lemma_pair_kept(v: EmittersView, w: Seq<EntryView>, e: EntityId, e2: EntityId, t2: CName)
    requires
        emitters_wf(v),
        spec_exists_tag(v, e2, t2),
        e2 != e,
        distinct_entities(w),
        forall|j: int| 0 <= j < v.entries.len() && (#[trigger] v.entries[j]).0 != e
            ==> exists|k: int| 0 <= k < w.len() && w[k] == v.entries[j],
    ensures
        spec_exists_tag(EmittersView { entries: w, registered: v.registered }, e2, t2),
{
    lemma_entity_index(v.entries, e2);
    let i2 = entity_index(v.entries, e2);
    assert(v.entries[i2].0 != e);
    let k = choose|k: int| 0 <= k < w.len() && w[k] == v.entries[i2];
    lemma_entity_at(w, e2, k);
}

/// Unregistering a tag keeps the registry consistent.
pub proof fn lemma_unregister_wf(v: EmittersView, e: EntityId, t: CName)
    requires
        emitters_wf(v),
    ensures
        emitters_wf(after_unregister(v, e, t).0),
{
    if entity_index(v.entries, e) >= 0 {
        let w = after_unregister(v, e, t).0;
        let p = |q: (EntityId, CName)| keeps_pair(q, e, Some(t));
        lemma_narrowed(v.entries, e, Some(t));
        lemma_filter_distinct(v.registered, p);
        lemma_filter_elements(v.registered, p);
        lemma_entity_index(v.entries, e);
        let i = entity_index(v.entries, e);
        assert forall|k: int| 0 <= k < w.registered.len()
            implies spec_exists_tag(w, (#[trigger] w.registered[k]).0, w.registered[k].1) by {
            let (e2, t2) = w.registered[k];
            assert(v.registered.contains((e2, t2)));
            let k2 = choose|k2: int| 0 <= k2 < v.registered.len() && v.registered[k2] == (e2, t2);
            assert(spec_exists_tag(v, v.registered[k2].0, v.registered[k2].1));
            if e2 != e {
                lemma_pair_kept(v, w.entries, e, e2, t2);
            } else {
                assert(t2 != t);
                let slots = v.entries[i].1;
                let a = choose|a: int| 0 <= a < slots.len() && (#[trigger] slots[a]).0 == t2;
                lemma_filter_elements(slots, |x: SlotView| keeps_slot(x, Some(t)));
                let kept = slots.filter(|x: SlotView| keeps_slot(x, Some(t)));
                assert(slots.contains(slots[a]));
                assert(kept.contains(slots[a]));
                let b = choose|b: int| 0 <= b < kept.len() && kept[b] == slots[a];
                assert(w.entries[i] == (e, kept, v.entries[i].2));
                lemma_entity_at(w.entries, e, i);
                assert(kept[b].0 == t2);
            }
        }
    }
}

/// The death of an entity keeps the registry consistent.
pub proof fn lemma_dies_wf(v: EmittersView, e: EntityId)
    requires
        emitters_wf(v),
    ensures
        emitters_wf(after_dies(v, e)),
{
    let w = after_dies(v, e);
    let p = |q: (EntityId, CName)| keeps_pair(q, e, None);
    lemma_narrowed(v.entries, e, None);
    lemma_filter_distinct(v.registered, p);
    lemma_filter_elements(v.registered, p);
    assert forall|k: int| 0 <= k < w.registered.len()
        implies spec_exists_tag(w, (#[trigger] w.registered[k]).0, w.registered[k].1) by {
        let (e2, t2) = w.registered[k];
        assert(v.registered.contains((e2, t2)));
        let k2 = choose|k2: int| 0 <= k2 < v.registered.len() && v.registered[k2] == (e2, t2);
        assert(spec_exists_tag(v, v.registered[k2].0, v.registered[k2].1));
        lemma_pair_kept(v, w.entries, e, e2, t2);
    }
}

/// Removing an entity keeps the registry consistent.
pub proof fn lemma_remove_entity_wf(v: EmittersView, e: EntityId)
    requires
        emitters_wf(v),
    ensures
        emitters_wf(after_remove_entity(v, e)),
{
    let w = after_remove_entity(v, e);
    let s = v.entries;
    let p = |q: (EntityId, CName)| keeps_pair(q, e, None);
    lemma_filter_distinct(v.registered, p);
    lemma_filter_elements(v.registered, p);
    lemma_entity_index(s, e);
    let i = entity_index(s, e);
    assert(distinct_entities(w.entries) && nonempty_slots(w.entries) && slots_distinct(w.entries)
        && forall|j: int| 0 <= j < s.len() && (#[trigger] s[j]).0 != e
            ==> exists|k: int| 0 <= k < w.entries.len() && w.entries[k] == s[j]) by {
        if i >= 0 {
            assert forall|a: int, b: int| 0 <= a < b < w.entries.len() implies (#[trigger] w.entries[a]).0 != (#[trigger] w.entries[b]).0 by {
                let a2 = if a < i { a } else { a + 1 };
                let b2 = if b < i { b } else { b + 1 };
                assert(w.entries[a] == s[a2] && w.entries[b] == s[b2]);
            }
            assert forall|k: int| 0 <= k < w.entries.len() implies (#[trigger] w.entries[k]).1.len() > 0 && distinct_tags(w.entries[k].1) by {
                let k2 = if k < i { k } else { k + 1 };
                assert(w.entries[k] == s[k2]);
            }
            assert forall|j: int| 0 <= j < s.len() && (#[trigger] s[j]).0 != e
                implies exists|k: int| 0 <= k < w.entries.len() && w.entries[k] == s[j] by {
                let k = if j < i { j } else { j - 1 };
                assert(w.entries[k] == s[j]);
            }
        } else {
            assert forall|j: int| 0 <= j < s.len() && (#[trigger] s[j]).0 != e
                implies exists|k: int| 0 <= k < w.entries.len() && w.entries[k] == s[j] by {
                assert(w.entries[j] == s[j]);
            }
        }
    }
    assert forall|k: int| 0 <= k < w.registered.len()
        implies spec_exists_tag(w, (#[trigger] w.registered[k]).0, w.registered[k].1) by {
        let (e2, t2) = w.registered[k];
        assert(v.registered.contains((e2, t2)));
        let k2 = choose|k2: int| 0 <= k2 < v.registered.len() && v.registered[k2] == (e2, t2);
        assert(spec_exists_tag(v, v.registered[k2].0, v.registered[k2].1));
        lemma_pair_kept(v, w.entries, e, e2, t2);
    }
}

/// Splits slots into those that stay and those that go, each in order.
fn partition_slots<H>(slots: Vec<EmitterSlot<H>>, t: Option<CName>) -> (r: (Vec<EmitterSlot<H>>, Vec<EmitterSlot<H>>))
    ensures
        slots_view(r.0@) == slots_view(slots@).filter(|x: SlotView| keeps_slot(x, t)),
        slots_view(r.1@) == slots_view(slots@).filter(|x: SlotView| drops_slot(x, t)),
        r.0@ == kept_slots(slots@, t),
        r.1@ == dropped_slots(slots@, t),
{
    let ghost all = slots_view(slots@);
    let ghost orig = slots@;
    let ghost n = slots@.len();
    assert(n <= usize::MAX) by {
        assert(slots.len() == n);
    }
    let mut rest = slots;
    let mut kept: Vec<EmitterSlot<H>> = Vec::new();
    let mut dropped: Vec<EmitterSlot<H>> = Vec::new();
    let mut i: usize = 0;
    assert(all.take(0).filter(|x: SlotView| keeps_slot(x, t)) =~= Seq::<SlotView>::empty()) by {
        reveal(Seq::filter);
    }
    assert(all.take(0).filter(|x: SlotView| drops_slot(x, t)) =~= Seq::<SlotView>::empty()) by {
        reveal(Seq::filter);
    }
    assert(kept_slots(orig.take(0), t) =~= Seq::<EmitterSlot<H>>::empty()) by {
        reveal(Seq::filter);
    }
    assert(dropped_slots(orig.take(0), t) =~= Seq::<EmitterSlot<H>>::empty()) by {
        reveal(Seq::filter);
    }
    assert(orig.skip(0) =~= orig);
    while rest.len() > 0
        invariant
            i <= n,
            n <= usize::MAX,
            all.len() == n,
            orig.len() == n,
            all == slots_view(orig),
            rest@.len() == n - i,
            rest@ == orig.skip(i as int),
            slots_view(rest@) == all.skip(i as int),
            slots_view(kept@) == all.take(i as int).filter(|x: SlotView| keeps_slot(x, t)),
            slots_view(dropped@) == all.take(i as int).filter(|x: SlotView| drops_slot(x, t)),
            kept@ == kept_slots(orig.take(i as int), t),
            dropped@ == dropped_slots(orig.take(i as int), t),
        decreases rest@.len(),
    {
        let ghost before = rest@;
        let x = rest.remove(0);
        proof {
            assert(x == orig[i as int]);
            assert(rest@ =~= orig.skip(i as int + 1));
            lemma_filter_step(orig, |y: EmitterSlot<H>| keeps_slot(y@, t), i as int);
            lemma_filter_step(orig, |y: EmitterSlot<H>| !keeps_slot(y@, t), i as int);
            assert(x@ == all[i as int]) by {
                assert(slots_view(before)[0] == all.skip(i as int)[0]);
            }
            assert(slots_view(rest@) =~= all.skip(i as int + 1)) by {
                assert(rest@ =~= before.subrange(1, before.len() as int));
                assert forall|k: int| 0 <= k < rest@.len() implies slots_view(rest@)[k] == all.skip(i as int + 1)[k] by {
                    assert(rest@[k] == before[k + 1]);
                    assert(slots_view(before)[k + 1] == all.skip(i as int)[k + 1]);
                }
            }
            lemma_filter_step(all, |y: SlotView| keeps_slot(y, t), i as int);
            lemma_filter_step(all, |y: SlotView| drops_slot(y, t), i as int);
        }
        let stays = match t {
            Some(tag) => x.tag_name != tag,
            None => x.persist_until_sounds_finish,
        };
        if stays {
            let ghost k = kept@;
            kept.push(x);
            assert(slots_view(kept@) =~= slots_view(k).push(all[i as int]));
        } else {
            let ghost d = dropped@;
            dropped.push(x);
            assert(slots_view(dropped@) =~= slots_view(d).push(all[i as int]));
        }
        i = i + 1;
    }
    assert(all.take(n as int) =~= all);
    assert(orig.take(n as int) =~= orig);
    (kept, dropped)
}

/// The pairs that stay registered.
fn filter_pairs(v: &Vec<(EntityId, CName)>, e: EntityId, t: Option<CName>) -> (r: Vec<(EntityId, CName)>)
    ensures
        r@ == v@.filter(|p: (EntityId, CName)| keeps_pair(p, e, t)),
{
    let mut r: Vec<(EntityId, CName)> = Vec::new();
    let mut i: usize = 0;
    assert(v@.take(0).filter(|p: (EntityId, CName)| keeps_pair(p, e, t)) =~= Seq::<(EntityId, CName)>::empty()) by {
        reveal(Seq::filter);
    }
    while i < v.len()
        invariant
            i <= v.len(),
            r@ == v@.take(i as int).filter(|p: (EntityId, CName)| keeps_pair(p, e, t)),
        decreases v.len() - i,
    {
        proof {
            lemma_filter_step(v@, |p: (EntityId, CName)| keeps_pair(p, e, t), i as int);
        }
        let p = v[i];
        let stays = match t {
            Some(tag) => !(p.0 == e && p.1 == tag),
            None => p.0 != e,
        };
        if stays {
            r.push(p);
        }
        i = i + 1;
    }
    assert(v@.take(v.len() as int) =~= v@);
    r
}

/// Once an emitter is added, its tag exists on the entity and the pair is
/// registered.
pub proof fn law_added_emitter_registered(v: EmittersView, e: EntityId, slot: SlotView)
    requires
        emitters_wf(v),
        !spec_exists_tag(v, e, slot.0),
    ensures
        spec_exists_tag(after_add(v, e, slot), e, slot.0),
        spec_is_registered(after_add(v, e, slot), e, Some(slot.0)),
        spec_is_registered(after_add(v, e, slot), e, None),
{
    lemma_add_wf(v, e, slot);
    let w = after_add(v, e, slot);
    let k = v.registered.len() as int;
    assert(w.registered[k] == (e, slot.0));
    assert(spec_exists_tag(w, w.registered[k].0, w.registered[k].1));
}

/// Once a tag is unregistered, no emitter of the entity has it and the
/// pair is not registered.
pub proof fn law_unregistered_emitter_gone(v: EmittersView, e: EntityId, t: CName)
    requires
        emitters_wf(v),
    ensures
        !spec_exists_tag(after_unregister(v, e, t).0, e, t),
        !spec_is_registered(after_unregister(v, e, t).0, e, Some(t)),
{
    lemma_entity_index(v.entries, e);
    let i = entity_index(v.entries, e);
    let w = after_unregister(v, e, t).0;
    if i < 0 {
        assert(!spec_exists_tag(v, e, t));
        if v.registered.contains((e, t)) {
            let k = choose|k: int| 0 <= k < v.registered.len() && v.registered[k] == (e, t);
            assert(spec_exists_tag(v, v.registered[k].0, v.registered[k].1));
        }
    } else {
        let p = |q: (EntityId, CName)| keeps_pair(q, e, Some(t));
        lemma_filter_elements(v.registered, p);
        lemma_narrowed(v.entries, e, Some(t));
        let slots = v.entries[i].1;
        let kept = slots.filter(|x: SlotView| keeps_slot(x, Some(t)));
        lemma_filter_elements(slots, |x: SlotView| keeps_slot(x, Some(t)));
        if kept.len() > 0 {
            lemma_entity_at(w.entries, e, i);
            assert forall|a: int| 0 <= a < kept.len() implies (#[trigger] kept[a]).0 != t by {
                assert(keeps_slot(kept[a], Some(t)));
            }
        } else {
            lemma_entity_index(w.entries, e);
            if entity_index(w.entries, e) >= 0 {
                let j = entity_index(w.entries, e);
                let k = if j < i { j } else { j + 1 };
                assert(w.entries[j] == v.entries[k]);
            }
        }
        if w.registered.contains((e, t)) {
            let k = choose|k: int| 0 <= k < w.registered.len() && w.registered[k] == (e, t);
            assert(keeps_pair(w.registered[k], e, Some(t)));
        }
    }
}

/// Once an entity dies, none of its tags is registered, and it keeps only
/// the slots whose sounds must finish, marked for death.
pub proof fn law_dead_entity_unregistered(v: EmittersView, e: EntityId)
    requires
        emitters_wf(v),
    ensures
        !spec_is_registered(after_dies(v, e), e, None),
        entity_index(after_dies(v, e).entries, e) >= 0 ==> {
            let w = after_dies(v, e);
            let x = w.entries[entity_index(w.entries, e)];
            &&& x.2
            &&& forall|a: int| 0 <= a < x.1.len() ==> (#[trigger] x.1[a]).2
        },
{
    let w = after_dies(v, e);
    let p = |q: (EntityId, CName)| keeps_pair(q, e, None);
    lemma_filter_elements(v.registered, p);
    assert forall|k: int| 0 <= k < w.registered.len() implies (#[trigger] w.registered[k]).0 != e by {
        assert(keeps_pair(w.registered[k], e, None));
    }
    lemma_entity_index(v.entries, e);
    lemma_narrowed(v.entries, e, None);
    lemma_entity_index(w.entries, e);
    let i = entity_index(v.entries, e);
    if entity_index(w.entries, e) >= 0 {
        let j = entity_index(w.entries, e);
        if i < 0 {
            assert(w.entries[j] == v.entries[j]);
        } else {
            let slots = v.entries[i].1;
            let kept = slots.filter(|x: SlotView| keeps_slot(x, None));
            lemma_filter_elements(slots, |x: SlotView| keeps_slot(x, None));
            if kept.len() > 0 {
                lemma_entity_at(w.entries, e, i);
                assert forall|a: int| 0 <= a < kept.len() implies (#[trigger] kept[a]).2 by {
                    assert(keeps_slot(kept[a], None));
                }
            } else {
                let k = if j < i { j } else { j + 1 };
                assert(w.entries[j] == v.entries[k]);
            }
        }
    }
}

/// Once an entity is removed, it has no entry and none of its tags is
/// registered.
pub proof fn law_removed_entity_gone(v: EmittersView, e: EntityId)
    requires
        emitters_wf(v),
    ensures
        entity_index(after_remove_entity(v, e).entries, e) < 0,
        !spec_is_registered(after_remove_entity(v, e), e, None),
{
    let w = after_remove_entity(v, e);
    let p = |q: (EntityId, CName)| keeps_pair(q, e, None);
    lemma_filter_elements(v.registered, p);
    assert forall|k: int| 0 <= k < w.registered.len() implies (#[trigger] w.registered[k]).0 != e by {
        assert(keeps_pair(w.registered[k], e, None));
    }
    lemma_entity_index(v.entries, e);
    lemma_entity_index(w.entries, e);
    let i = entity_index(v.entries, e);
    if entity_index(w.entries, e) >= 0 {
        let j = entity_index(w.entries, e);
        if i < 0 {
            assert(w.entries[j] == v.entries[j]);
        } else {
            let k = if j < i { j } else { j + 1 };
            assert(w.entries[j] == v.entries[k]);
        }
    }
}

/// The entities, in order, that are marked for death and whose sounds
/// have all finished: `playing` tells, for each entry in order, whether
/// some sound of it still plays.
pub open spec fn finished_entities(s: Seq<EntryView>, playing: Seq<bool>) -> Seq<EntityId>
    decreases s.len(),
{
    if s.len() == 0 {
        Seq::empty()
    } else {
        let r = finished_entities(s.drop_last(), playing);
        if s.last().2 && !playing[s.len() - 1] {
            r.push(s.last().0)
        } else {
            r
        }
    }
}

/// The emitters registered on game entities.
pub struct Emitters<H> {
    entries: Vec<EmitterSlots<H>>,
    registered: Vec<(EntityId, CName)>,
}

impl<H> View for Emitters<H> {
    type V = EmittersView;

    open spec fn view(&self) -> EmittersView {
        EmittersView { entries: entries_view(self.entries()), registered: self.pairs() }
    }
}

impl<H> Emitters<H> {
    /// The entries as stored, sound handles included, entities in order.
    pub closed spec fn entries(&self) -> Seq<EmitterSlots<H>> {
        self.entries@
    }

    /// The registered pairs of entity and tag, in order.
    pub closed spec fn pairs(&self) -> Seq<(EntityId, CName)> {
        self.registered@
    }

    pub open spec fn wf(&self) -> bool {
        emitters_wf(self@)
    }

    /// No emitter.
    pub fn new() -> (r: Emitters<H>)
        ensures
            r.wf(),
            r@.entries == Seq::<EntryView>::empty(),
            r@.registered == Seq::<(EntityId, CName)>::empty(),
    {
        let r = Emitters { entries: Vec::new(), registered: Vec::new() };
        assert(r@.entries =~= Seq::<EntryView>::empty());
        r
    }

    /// Forgets every emitter; the slots are handed back to be stopped.
    pub fn clear(&mut self) -> (r: Vec<EmitterSlots<H>>)
        ensures
            final(self).wf(),
            final(self)@.entries == Seq::<EntryView>::empty(),
            final(self)@.registered == Seq::<(EntityId, CName)>::empty(),
            r@ == old(self).entries(),
    {
        let mut entries = Vec::new();
        std::mem::swap(&mut entries, &mut self.entries);
        self.registered = Vec::new();
        assert(self@.entries =~= Seq::<EntryView>::empty());
        entries
    }

    /// Whether no entity has an emitter.
    pub fn is_empty(&self) -> (r: bool)
        ensures
            r == (self@.entries.len() == 0),
    {
        self.entries.len() == 0
    }

    /// The number of registered pairs of entity and tag.
    pub fn emitters_count(&self) -> (r: usize)
        ensures
            r == self@.registered.len(),
    {
        self.registered.len()
    }

    fn find(&self, e: EntityId) -> (r: Option<usize>)
        ensures
            match r {
                None => entity_index(self@.entries, e) == -1,
                Some(i) => i as int == entity_index(self@.entries, e) && i < self.entries@.len(),
            },
    {
        let ghost s = self@.entries;
        let mut i: usize = self.entries.len();
        assert(s.take(i as int) =~= s);
        while i > 0
            invariant
                i <= self.entries@.len(),
                s == self@.entries,
                entity_index(s, e) == entity_index(s.take(i as int), e),
            decreases i,
        {
            let j = i - 1;
            assert(s.take(i as int).drop_last() =~= s.take(j as int));
            assert(s.take(i as int).last() == s[j as int]);
            if self.entries[j].entity_id == e {
                return Some(j);
            }
            i = j;
        }
        None
    }

    /// Whether an emitter of `entity_id` is registered under `tag_name`.
    pub fn exists_tag(&self, entity_id: &EntityId, tag_name: &CName) -> (r: bool)
        ensures
            r == spec_exists_tag(self@, *entity_id, *tag_name),
    {
        match self.find(*entity_id) {
            None => false,
            Some(i) => {
                let slots = &self.entries[i].slots;
                let ghost sv = self@.entries[i as int].1;
                assert(sv == slots_view(slots@));
                let mut a: usize = 0;
                while a < slots.len()
                    invariant
                        a <= slots@.len(),
                        i as int == entity_index(self@.entries, *entity_id),
                        sv == self@.entries[i as int].1,
                        sv == slots_view(slots@),
                        forall|b: int| 0 <= b < a ==> (#[trigger] sv[b]).0 != *tag_name,
                    decreases slots@.len() - a,
                {
                    if slots[a].tag_name == *tag_name {
                        assert(sv[a as int].0 == *tag_name);
                        return true;
                    }
                    a = a + 1;
                }
                false
            },
        }
    }

    /// Registers an emitter of `entity_id` under `tag_name`, unless one is
    /// registered under that tag already; says whether it was added.
    pub fn add_emitter(
        &mut self,
        handle: H,
        entity_id: EntityId,
        tag_name: CName,
        emitter_name: Option<CName>,
        persist_until_sounds_finish: bool,
    ) -> (r: bool)
        requires
            old(self).wf(),
        ensures
            final(self).wf(),
            r == !spec_exists_tag(old(self)@, entity_id, tag_name),
            r ==> final(self)@ == after_add(
                old(self)@,
                entity_id,
                (tag_name, emitter_name, persist_until_sounds_finish),
            ),
            !r ==> final(self)@ == old(self)@,
            r ==> raw_added(
                old(self).entries(),
                final(self).entries(),
                entity_index(old(self)@.entries, entity_id),
                entity_id,
                (EmitterSlot { handle, tag_name, emitter_name, persist_until_sounds_finish }),
            ),
            !r ==> final(self).entries() == old(self).entries(),
    {
        if self.exists_tag(&entity_id, &tag_name) {
            return false;
        }
        let ghost v = self@;
        let ghost sv = (tag_name, emitter_name, persist_until_sounds_finish);
        proof {
            lemma_add_wf(v, entity_id, sv);
        }
        let slot = EmitterSlot { handle, tag_name, emitter_name, persist_until_sounds_finish };
        match self.find(entity_id) {
            Some(i) => {
                proof {
                    lemma_entity_index(v.entries, entity_id);
                }
                let ghost raw = self.entries@;
                let mut entry = self.entries.remove(i);
                let ghost before = entry@;
                assert(before == v.entries[i as int]);
                entry.slots.push(slot);
                assert(slots_view(entry.slots@) =~= before.1.push(sv));
                self.entries.insert(i, entry);
                assert(self.entries@ =~= raw.update(i as int, entry));
                assert(entry.slots@ =~= raw[i as int].slots@.push(slot));
                assert(entries_view(self.entries@) =~= v.entries.update(
                    i as int,
                    (entity_id, v.entries[i as int].1.push(sv), v.entries[i as int].2),
                ));
            },
            None => {
                let mut slots = Vec::new();
                slots.push(slot);
                let entry = EmitterSlots { entity_id, slots, marked_for_death: false };
                assert(slots_view(entry.slots@) =~= seq![sv]);
                self.entries.push(entry);
                assert(entries_view(self.entries@) =~= v.entries.push((entity_id, seq![sv], false)));
            },
        }
        self.registered.push((entity_id, tag_name));
        true
    }

    /// Unregisters the tag `tag_name` of `entity_id`; the entity goes when
    /// its last slot does. Says whether the entity had emitters.
    pub fn unregister_emitter(&mut self, entity_id: &EntityId, tag_name: &CName) -> (r: bool)
        requires
            old(self).wf(),
        ensures
            final(self).wf(),
            (final(self)@, r) == after_unregister(old(self)@, *entity_id, *tag_name),
            raw_narrowed(
                old(self).entries(),
                final(self).entries(),
                entity_index(old(self)@.entries, *entity_id),
                Some(*tag_name),
            ),
    {
        let ghost v = self@;
        proof {
            lemma_unregister_wf(v, *entity_id, *tag_name);
            lemma_entity_index(v.entries, *entity_id);
        }
        match self.find(*entity_id) {
            None => false,
            Some(i) => {
                let ghost raw = self.entries@;
                let entry = self.entries.remove(i);
                assert(entry@ == v.entries[i as int]);
                let EmitterSlots { entity_id: id, slots, marked_for_death } = entry;
                let (kept, _gone) = partition_slots(slots, Some(*tag_name));
                if kept.len() > 0 {
                    let e2 = EmitterSlots { entity_id: id, slots: kept, marked_for_death };
                    self.entries.insert(i, e2);
                    assert(self.entries@ =~= raw.update(i as int, e2));
                    assert(entries_view(self.entries@) =~= narrowed(v.entries, *entity_id, Some(*tag_name)));
                } else {
                    assert(entries_view(self.entries@) =~= narrowed(v.entries, *entity_id, Some(*tag_name)));
                }
                self.registered = filter_pairs(&self.registered, *entity_id, Some(*tag_name));
                true
            },
        }
    }

    /// The entity `entity_id` died: its slots whose sounds must finish stay
    /// and mark it for death, the others are handed back to be stopped, and
    /// none of its tags stays registered.
    pub fn on_emitter_dies(&mut self, entity_id: &EntityId) -> (stopped: Vec<EmitterSlot<H>>)
        requires
            old(self).wf(),
        ensures
            final(self).wf(),
            final(self)@ == after_dies(old(self)@, *entity_id),
            slots_view(stopped@) == stopped_on_death(old(self)@, *entity_id),
            entity_index(old(self)@.entries, *entity_id) < 0 ==> stopped@.len() == 0,
            entity_index(old(self)@.entries, *entity_id) >= 0 ==> stopped@ == dropped_slots(
                old(self).entries()[entity_index(old(self)@.entries, *entity_id)].slots@,
                None,
            ),
            raw_narrowed(
                old(self).entries(),
                final(self).entries(),
                entity_index(old(self)@.entries, *entity_id),
                None,
            ),
    {
        let ghost v = self@;
        proof {
            lemma_dies_wf(v, *entity_id);
            lemma_entity_index(v.entries, *entity_id);
        }
        let stopped = match self.find(*entity_id) {
            None => {
                assert(stopped_on_death(v, *entity_id) =~= Seq::<SlotView>::empty());
                Vec::new()
            },
            Some(i) => {
                let ghost raw = self.entries@;
                let entry = self.entries.remove(i);
                assert(entry@ == v.entries[i as int]);
                let EmitterSlots { entity_id: id, slots, marked_for_death: _ } = entry;
                let (kept, gone) = partition_slots(slots, None);
                if kept.len() > 0 {
                    let e2 = EmitterSlots { entity_id: id, slots: kept, marked_for_death: true };
                    self.entries.insert(i, e2);
                    assert(self.entries@ =~= raw.update(i as int, e2));
                    assert(entries_view(self.entries@) =~= narrowed(v.entries, *entity_id, None));
                } else {
                    assert(entries_view(self.entries@) =~= narrowed(v.entries, *entity_id, None));
                }
                gone
            },
        };
        self.registered = filter_pairs(&self.registered, *entity_id, None);
        stopped
    }

    /// Forgets the entity `entity_id` and its tags; its entry is handed
    /// back, if it had one.
    pub fn remove_entity(&mut self, entity_id: &EntityId) -> (r: Option<EmitterSlots<H>>)
        requires
            old(self).wf(),
        ensures
            final(self).wf(),
            final(self)@ == after_remove_entity(old(self)@, *entity_id),
            r is Some <==> entity_index(old(self)@.entries, *entity_id) >= 0,
            r matches Some(x) ==> x == old(self).entries()[entity_index(old(self)@.entries, *entity_id)],
            entity_index(old(self)@.entries, *entity_id) >= 0 ==> final(self).entries()
                == old(self).entries().remove(entity_index(old(self)@.entries, *entity_id)),
            entity_index(old(self)@.entries, *entity_id) < 0 ==> final(self).entries() == old(self).entries(),
    {
        let ghost v = self@;
        proof {
            lemma_remove_entity_wf(v, *entity_id);
        }
        let r = match self.find(*entity_id) {
            None => None,
            Some(i) => {
                let entry = self.entries.remove(i);
                assert(entries_view(self.entries@) =~= v.entries.remove(i as int));
                Some(entry)
            },
        };
        self.registered = filter_pairs(&self.registered, *entity_id, None);
        r
    }

    /// The entities to forget when the scene is synchronized: those marked
    /// for death whose sounds have all finished, in order. `playing` tells,
    /// for each entry in order, whether some sound of it still plays.
    pub fn finished(&self, playing: &Vec<bool>) -> (r: Vec<EntityId>)
        requires
            playing@.len() == self@.entries.len(),
        ensures
            r@ == finished_entities(self@.entries, playing@),
    {
        let ghost s = self@.entries;
        let mut r: Vec<EntityId> = Vec::new();
        let mut i: usize = 0;
        while i < self.entries.len()
            invariant
                i <= self.entries@.len(),
                s == self@.entries,
                s.len() == self.entries@.len(),
                playing@.len() == s.len(),
                r@ == finished_entities(s.take(i as int), playing@),
            decreases self.entries@.len() - i,
        {
            assert(s.take(i as int + 1).drop_last() =~= s.take(i as int));
            assert(s.take(i as int + 1).last() == s[i as int]);
            assert(self.entries@[i as int]@ == s[i as int]);
            if self.entries[i].marked_for_death && !playing[i] {
                r.push(self.entries[i].entity_id);
            }
            i = i + 1;
        }
        assert(s.take(s.len() as int) =~= s);
        r
    }

    /// Whether the pair is registered; with no tag, whether some pair of
    /// the entity is.
    pub fn is_registered_emitter(&self, entity_id: EntityId, tag_name: Option<CName>) -> (r: bool)
        ensures
            r == spec_is_registered(self@, entity_id, tag_name),
    {
        let mut k: usize = 0;
        while k < self.registered.len()
            invariant
                k <= self.registered@.len(),
                forall|j: int| 0 <= j < k ==> !(match tag_name {
                    Some(t) => #[trigger] self.registered@[j] == (entity_id, t),
                    None => self.registered@[j].0 == entity_id,
                }),
            decreases self.registered@.len() - k,
        {
            let p = self.registered[k];
            let hit = match tag_name {
                Some(t) => p.0 == entity_id && p.1 == t,
                None => p.0 == entity_id,
            };
            if hit {
                assert(self@.registered[k as int] == p);
                return true;
            }
            k = k + 1;
        }
        proof {
            if let Some(t) = tag_name {
                if self@.registered.contains((entity_id, t)) {
                    let j = choose|j: int| 0 <= j < self@.registered.len() && self@.registered[j] == (entity_id, t);
                    assert(self.registered@[j] == (entity_id, t));
                }
            }
        }
        false
    }
}

} // verus!
