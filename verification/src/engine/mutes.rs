//! Vanilla audio events muted by mods, and the hooks they are muted for.

use vstd::prelude::*;

use crate::abi::lifecycle::ReplacementNotification;
use crate::engine::replacement::{with_hooks, without_entry, without_hooks, Mute};
use crate::names::{CName, EventName};

verus! {

/// The hooks of an audio event, as bit flags.
#[derive(Debug, Clone, Copy, PartialEq, Eq, Structural)]
pub struct EventHookTypes {
    pub bits: u16,
}

/// The bits of every known hook.
pub open spec fn all_hook_bits() -> u16 {
    0x3fffu16
}

impl EventHookTypes {
    /// Every known hook.
    pub fn all() -> (r: EventHookTypes)
        ensures
            r.bits == all_hook_bits(),
    {
        EventHookTypes { bits: 0x3fff }
    }

    /// Whether a bit outside the known hooks is set.
    pub fn contains_unknown_bits(&self) -> (r: bool)
        ensures
            r == (self.bits & !all_hook_bits() != 0),
    {
        self.bits & !0x3fffu16 != 0
    }

    /// Whether every hook of `other` is set.
    pub fn contains(&self, other: EventHookTypes) -> (r: bool)
        ensures
            r == (self.bits & other.bits == other.bits),
    {
        self.bits & other.bits == other.bits
    }

    /// Whether every known hook is set.
    pub fn is_all(&self) -> (r: bool)
        ensures
            r == (self.bits & all_hook_bits() == all_hook_bits()),
    {
        self.bits & 0x3fffu16 == 0x3fffu16
    }
}

pub type MuteEntry = (EventName, EventHookTypes);

/// The index of the last entry for `name`, or -1.
pub open spec fn last_index_of(s: Seq<MuteEntry>, name: EventName) -> int
    decreases s.len(),
{
    if s.len() == 0 {
        -1
    } else if s.last().0 == name {
        s.len() - 1
    } else {
        last_index_of(s.drop_last(), name)
    }
}

/// The entries without those for `name`.
pub open spec fn without(s: Seq<MuteEntry>, name: EventName) -> Seq<MuteEntry>
    decreases s.len(),
{
    if s.len() == 0 {
        s
    } else {
        let r = without(s.drop_last(), name);
        if s.last().0 == name {
            r
        } else {
            r.push(s.last())
        }
    }
}

/// The entries once `types` are unmuted for `name`: an entry for `name`
/// that shares no hook with `types` is dropped, another one loses `types`.
pub open spec fn unmute_types(s: Seq<MuteEntry>, name: EventName, types: EventHookTypes) -> Seq<MuteEntry>
    decreases s.len(),
{
    if s.len() == 0 {
        s
    } else {
        let r = unmute_types(s.drop_last(), name, types);
        let x = s.last();
        if x.0 != name {
            r.push(x)
        } else if x.1.bits & types.bits == 0 {
            r
        } else {
            r.push((x.0, EventHookTypes { bits: x.1.bits & !types.bits }))
        }
    }
}


proof fn lemma_clear_bits(a: u16, b: u16)
    by (bit_vector)
    ensures
        (a & !b) & b == 0,
        a & b != 0 ==> a & !b != a,
{
}

proof fn lemma_unmute_types_clears(s: Seq<MuteEntry>, name: EventName, types: EventHookTypes)
    ensures
        forall|i: int| 0 <= i < unmute_types(s, name, types).len() && (#[trigger] unmute_types(s, name, types)[i]).0 == name ==> {
            &&& unmute_types(s, name, types)[i].1.bits & types.bits == 0
            &&& exists|j: int| 0 <= j < s.len() && s[j].0 == name && s[j].1.bits & types.bits != 0
                && unmute_types(s, name, types)[i].1.bits == (s[j].1.bits & !types.bits)
        },
        forall|i: int| 0 <= i < unmute_types(s, name, types).len() && (#[trigger] unmute_types(s, name, types)[i]).0 != name
            ==> s.contains(unmute_types(s, name, types)[i]),
        forall|j: int| 0 <= j < s.len() && (#[trigger] s[j]).0 == name && s[j].1.bits & types.bits != 0
            ==> unmute_types(s, name, types).contains((name, EventHookTypes { bits: s[j].1.bits & !types.bits })),
    decreases s.len(),
{
    if s.len() > 0 {
        let d = s.drop_last();
        lemma_unmute_types_clears(d, name, types);
        let q = unmute_types(d, name, types);
        let r = unmute_types(s, name, types);
        let x = s.last();
        lemma_clear_bits(x.1.bits, types.bits);
        assert(s[s.len() - 1] == x);
        assert forall|i: int| 0 <= i < r.len() && (#[trigger] r[i]).0 == name implies {
            &&& r[i].1.bits & types.bits == 0
            &&& exists|j: int| 0 <= j < s.len() && s[j].0 == name && s[j].1.bits & types.bits != 0
                && r[i].1.bits == (s[j].1.bits & !types.bits)
        } by {
            if i < q.len() {
                assert(r[i] == q[i]);
                assert(q[i].0 == name);
                let j = choose|j: int| 0 <= j < d.len() && d[j].0 == name && d[j].1.bits & types.bits != 0
                    && q[i].1.bits == (d[j].1.bits & !types.bits);
                assert(s[j] == d[j]);
            } else {
                assert(r[i] == (name, EventHookTypes { bits: x.1.bits & !types.bits }));
            }
        }
        assert forall|i: int| 0 <= i < r.len() && (#[trigger] r[i]).0 != name implies s.contains(r[i]) by {
            if i < q.len() {
                assert(r[i] == q[i]);
                assert(d.contains(q[i]));
                let j = choose|j: int| 0 <= j < d.len() && d[j] == q[i];
                assert(s[j] == d[j]);
            } else {
                assert(r[i] == x);
            }
        }
        assert forall|j: int| 0 <= j < s.len() && (#[trigger] s[j]).0 == name && s[j].1.bits & types.bits != 0
            implies r.contains((name, EventHookTypes { bits: s[j].1.bits & !types.bits })) by {
            if j < d.len() {
                assert(s[j] == d[j]);
                assert(d[j].0 == name);
                let e = (name, EventHookTypes { bits: d[j].1.bits & !types.bits });
                assert(q.contains(e));
                let k = choose|k: int| 0 <= k < q.len() && q[k] == e;
                assert(r[k] == q[k]);
            } else {
                assert(r[q.len() as int] == (name, EventHookTypes { bits: x.1.bits & !types.bits }));
            }
        }
    }
}

/// Unmuting some hooks of an event clears exactly those hooks: every entry
/// left for the event had some of them and keeps all its other hooks, none
/// of the ones unmuted; entries of other events stay as they were; and an
/// entry that shared some hook with them is kept, not dropped.
pub proof fn law_unmute_specific_clears_only_those_hooks(
    s: Seq<MuteEntry>,
    publish: bool,
    name: EventName,
    types: EventHookTypes,
)
    ensures
        ({
            let r = apply_notification(s, publish, ReplacementNotification::UnmuteSpecific(name, types)).0;
            &&& forall|i: int| 0 <= i < r.len() && (#[trigger] r[i]).0 == name ==> {
                &&& r[i].1.bits & types.bits == 0
                &&& exists|j: int| 0 <= j < s.len() && s[j].0 == name && s[j].1.bits & types.bits != 0
                    && r[i].1.bits == (s[j].1.bits & !types.bits)
            }
            &&& forall|i: int| 0 <= i < r.len() && (#[trigger] r[i]).0 != name ==> s.contains(r[i])
            &&& forall|j: int| 0 <= j < s.len() && (#[trigger] s[j]).0 == name && s[j].1.bits & types.bits != 0
                ==> r.contains((name, EventHookTypes { bits: s[j].1.bits & !types.bits }))
        }),
{
    lemma_unmute_types_clears(s, name, types);
}

/// One pending notification applied to the entries and to whether they
/// must be published.
pub open spec fn apply_notification(
    s: Seq<MuteEntry>,
    publish: bool,
    n: ReplacementNotification,
) -> (Seq<MuteEntry>, bool) {
    match n {
        ReplacementNotification::Mute(name) => {
            let i = last_index_of(s, name);
            if i < 0 {
                (s.push((name, EventHookTypes { bits: all_hook_bits() })), true)
            } else if s[i].1.bits & all_hook_bits() == all_hook_bits() {
                (s, publish)
            } else {
                (s.update(i, (name, EventHookTypes { bits: s[i].1.bits | all_hook_bits() })), true)
            }
        },
        ReplacementNotification::MuteSpecific(name, types) => {
            let i = last_index_of(s, name);
            if i < 0 {
                (s.push((name, types)), true)
            } else if s[i].1.bits & types.bits == types.bits {
                (s, publish)
            } else {
                (s.update(i, (name, EventHookTypes { bits: s[i].1.bits | types.bits })), true)
            }
        },
        ReplacementNotification::Unmute(name) => {
            let r = without(s, name);
            (r, r.len() != s.len())
        },
        ReplacementNotification::UnmuteSpecific(name, types) => {
            let r = unmute_types(s, name, types);
            (r, r.len() != s.len())
        },
    }
}

/// The pending notifications applied in order.
pub open spec fn apply_notifications(
    s: Seq<MuteEntry>,
    publish: bool,
    ns: Seq<ReplacementNotification>,
) -> (Seq<MuteEntry>, bool)
    decreases ns.len(),
{
    if ns.len() == 0 {
        (s, publish)
    } else {
        let (s1, p1) = apply_notifications(s, publish, ns.drop_last());
        apply_notification(s1, p1, ns.last())
    }
}

/// No two entries are for the same event.
pub open spec fn distinct_names(s: Seq<MuteEntry>) -> bool {
    forall|i: int, j: int| 0 <= i < j < s.len() ==> s[i].0 != s[j].0
}

pub open spec fn has_name(s: Seq<MuteEntry>, name: EventName) -> bool {
    exists|i: int| 0 <= i < s.len() && s[i].0 == name
}

/// Some entry mutes every hook of `types` for `name`.
pub open spec fn spec_is_specific_muted(s: Seq<MuteEntry>, name: EventName, types: EventHookTypes) -> bool {
    exists|i: int| 0 <= i < s.len() && s[i].0 == name && s[i].1.bits & types.bits == types.bits
}

/// The muted events, and the hooks each one is muted for.
pub struct Replacements {
    entries: Vec<MuteEntry>,
}

impl View for Replacements {
    type V = Seq<MuteEntry>;

    closed spec fn view(&self) -> Seq<MuteEntry> {
        self.entries@
    }
}

pub proof fn lemma_last_index_of(s: Seq<MuteEntry>, name: EventName)
    ensures
        -1 <= last_index_of(s, name) < s.len(),
        last_index_of(s, name) >= 0 ==> s[last_index_of(s, name)].0 == name,
        last_index_of(s, name) < 0 <==> !has_name(s, name),
    decreases s.len(),
{
    if s.len() > 0 {
        lemma_last_index_of(s.drop_last(), name);
        if last_index_of(s, name) < 0 {
            assert forall|i: int| 0 <= i < s.len() implies s[i].0 != name by {
                if i < s.len() - 1 {
                    assert(s.drop_last()[i] == s[i]);
                }
            }
        } else if s.last().0 != name {
            let k = last_index_of(s.drop_last(), name);
            assert(s.drop_last()[k] == s[k]);
        }
    }
}

pub proof fn lemma_without(s: Seq<MuteEntry>, name: EventName)
    ensures
        forall|i: int| 0 <= i < without(s, name).len() ==> #[trigger] without(s, name)[i].0 != name,
        forall|i: int| 0 <= i < without(s, name).len() ==> has_name(s, #[trigger] without(s, name)[i].0),
        distinct_names(s) ==> distinct_names(without(s, name)),
        without(s, name).len() <= s.len(),
        !has_name(s, name) ==> without(s, name) == s,
        has_name(s, name) ==> without(s, name).len() < s.len(),
    decreases s.len(),
{
    if s.len() > 0 {
        let d = s.drop_last();
        lemma_without(d, name);
        let r = without(d, name);
        assert forall|i: int| 0 <= i < without(s, name).len() implies has_name(s, #[trigger] without(s, name)[i].0) by {
            if i < r.len() {
                let j = choose|j: int| 0 <= j < d.len() && d[j].0 == r[i].0;
                assert(s[j] == d[j]);
            } else {
                assert(s[s.len() - 1] == s.last());
            }
        }
        if distinct_names(s) {
            assert(distinct_names(d)) by {
                assert forall|i: int, j: int| 0 <= i < j < d.len() implies d[i].0 != d[j].0 by {
                    assert(d[i] == s[i] && d[j] == s[j]);
                }
            }
            if s.last().0 != name {
                let w = r.push(s.last());
                assert forall|i: int, j: int| 0 <= i < j < w.len() implies w[i].0 != w[j].0 by {
                    if j == w.len() - 1 {
                        let k = choose|k: int| 0 <= k < d.len() && d[k].0 == r[i].0;
                        assert(d[k] == s[k]);
                        assert(s[s.len() - 1] == s.last());
                    }
                }
            }
        }
        if !has_name(s, name) {
            assert(!has_name(d, name)) by {
                if has_name(d, name) {
                    let k = choose|k: int| 0 <= k < d.len() && d[k].0 == name;
                    assert(s[k] == d[k]);
                }
            }
            assert(s.last() == s[s.len() - 1]);
            assert(d.push(s.last()) =~= s);
        }
        if has_name(s, name) && s.last().0 != name {
            let k = choose|k: int| 0 <= k < s.len() && s[k].0 == name;
            assert(k < s.len() - 1);
            assert(d[k] == s[k]);
        }
    }
}

pub proof fn lemma_unmute_types(s: Seq<MuteEntry>, name: EventName, types: EventHookTypes)
    ensures
        forall|i: int| 0 <= i < unmute_types(s, name, types).len() ==> has_name(s, #[trigger] unmute_types(s, name, types)[i].0),
        distinct_names(s) ==> distinct_names(unmute_types(s, name, types)),
    decreases s.len(),
{
    if s.len() > 0 {
        let d = s.drop_last();
        lemma_unmute_types(d, name, types);
        let r = unmute_types(d, name, types);
        let w = unmute_types(s, name, types);
        assert forall|i: int| 0 <= i < w.len() implies has_name(s, #[trigger] w[i].0) by {
            if i < r.len() {
                let j = choose|j: int| 0 <= j < d.len() && d[j].0 == r[i].0;
                assert(s[j] == d[j]);
            } else {
                assert(s[s.len() - 1] == s.last());
            }
        }
        if distinct_names(s) {
            assert(distinct_names(d)) by {
                assert forall|i: int, j: int| 0 <= i < j < d.len() implies d[i].0 != d[j].0 by {
                    assert(d[i] == s[i] && d[j] == s[j]);
                }
            }
            assert forall|i: int, j: int| 0 <= i < j < w.len() implies w[i].0 != w[j].0 by {
                if j == r.len() {
                    let k = choose|k: int| 0 <= k < d.len() && d[k].0 == r[i].0;
                    assert(d[k] == s[k]);
                    assert(s[s.len() - 1] == s.last());
                }
            }
        }
    }
}

/// Applying a notification keeps the entries free of duplicate events.
pub proof fn lemma_apply_distinct(s: Seq<MuteEntry>, p: bool, n: ReplacementNotification)
    requires
        distinct_names(s),
    ensures
        distinct_names(apply_notification(s, p, n).0),
{
    match n {
        ReplacementNotification::Mute(name) => {
            lemma_last_index_of(s, name);
            let r = apply_notification(s, p, n).0;
            assert forall|i: int, j: int| 0 <= i < j < r.len() implies r[i].0 != r[j].0 by {
                if last_index_of(s, name) < 0 && j == s.len() {
                    assert(r[i] == s[i]);
                }
            }
        },
        ReplacementNotification::MuteSpecific(name, _) => {
            lemma_last_index_of(s, name);
            let r = apply_notification(s, p, n).0;
            assert forall|i: int, j: int| 0 <= i < j < r.len() implies r[i].0 != r[j].0 by {
                if last_index_of(s, name) < 0 && j == s.len() {
                    assert(r[i] == s[i]);
                }
            }
        },
        ReplacementNotification::Unmute(name) => {
            lemma_without(s, name);
        },
        ReplacementNotification::UnmuteSpecific(name, types) => {
            lemma_unmute_types(s, name, types);
        },
    }
}

pub proof fn lemma_apply_all_distinct(s: Seq<MuteEntry>, p: bool, ns: Seq<ReplacementNotification>)
    requires
        distinct_names(s),
    ensures
        distinct_names(apply_notifications(s, p, ns).0),
    decreases ns.len(),
{
    if ns.len() > 0 {
        lemma_apply_all_distinct(s, p, ns.drop_last());
        let (s1, p1) = apply_notifications(s, p, ns.drop_last());
        lemma_apply_distinct(s1, p1, ns.last());
    }
}

/// The entries that a single notification leaves in place: the result
/// when it is published, the former entries otherwise.
pub open spec fn after_single(s: Seq<MuteEntry>, n: ReplacementNotification) -> Seq<MuteEntry> {
    let (r, p) = apply_notifications(s, false, seq![n]);
    if p {
        r
    } else {
        s
    }
}

proof fn lemma_single(s: Seq<MuteEntry>, n: ReplacementNotification)
    ensures
        apply_notifications(s, false, seq![n]) == apply_notification(s, false, n),
{
    reveal_with_fuel(apply_notifications, 2);
    assert(seq![n].drop_last() =~= Seq::<ReplacementNotification>::empty());
    assert(seq![n].last() == n);
}

proof fn lemma_hook_bits(b: u16, t: u16)
    by (bit_vector)
    ensures
        t & !0x3fffu16 == 0 ==> (b | 0x3fffu16) & t == t,
        (b & 0x3fffu16 == 0x3fffu16 && t & !0x3fffu16 == 0) ==> b & t == t,
        (b | t) & t == t,
        (b & !t) & t == 0,
        t & t == t,
        t & !0x3fffu16 == 0 ==> 0x3fffu16 & t == t,
{
}

/// Muting an event mutes it for every known hook.
pub proof fn law_mute_covers_all_hooks(s: Seq<MuteEntry>, name: EventName, types: EventHookTypes)
    requires
        types.bits & !all_hook_bits() == 0,
    ensures
        spec_is_specific_muted(after_single(s, ReplacementNotification::Mute(name)), name, types),
{
    let n = ReplacementNotification::Mute(name);
    lemma_single(s, n);
    lemma_last_index_of(s, name);
    let i = last_index_of(s, name);
    let r = after_single(s, n);
    if i < 0 {
        lemma_hook_bits(all_hook_bits(), types.bits);
        assert(r[s.len() as int] == (name, EventHookTypes { bits: all_hook_bits() }));
        assert(r[s.len() as int].1.bits & types.bits == types.bits);
    } else {
        lemma_hook_bits(s[i].1.bits, types.bits);
        assert(r[i].0 == name && r[i].1.bits & types.bits == types.bits);
    }
}

/// Muting some hooks of an event mutes the event for those hooks.
pub proof fn law_mute_specific_covers_hooks(s: Seq<MuteEntry>, name: EventName, types: EventHookTypes)
    ensures
        spec_is_specific_muted(after_single(s, ReplacementNotification::MuteSpecific(name, types)), name, types),
{
    let n = ReplacementNotification::MuteSpecific(name, types);
    lemma_single(s, n);
    lemma_last_index_of(s, name);
    let i = last_index_of(s, name);
    let r = after_single(s, n);
    lemma_hook_bits(0, types.bits);
    if i < 0 {
        assert(r[s.len() as int] == (name, types));
        assert(r[s.len() as int].1.bits & types.bits == types.bits);
    } else {
        lemma_hook_bits(s[i].1.bits, types.bits);
        assert(r[i].0 == name && r[i].1.bits & types.bits == types.bits);
    }
}

/// Unmuting an event removes every entry for it.
pub proof fn law_unmute_unlists(s: Seq<MuteEntry>, name: EventName)
    ensures
        !has_name(after_single(s, ReplacementNotification::Unmute(name)), name),
{
    let n = ReplacementNotification::Unmute(name);
    lemma_single(s, n);
    lemma_without(s, name);
}


fn last_position(v: &Vec<MuteEntry>, name: EventName) -> (r: Option<usize>)
    ensures
        match r {
            None => last_index_of(v@, name) == -1,
            Some(i) => i as int == last_index_of(v@, name) && i < v.len(),
        },
{
    let mut i: usize = v.len();
    assert(v@.take(i as int) =~= v@);
    while i > 0
        invariant
            i <= v.len(),
            last_index_of(v@, name) == last_index_of(v@.take(i as int), name),
        decreases i,
    {
        let ghost t = v@.take(i as int);
        assert(t.drop_last() =~= v@.take(i - 1));
        assert(t.last() == v@[i - 1]);
        if v[i - 1].0 == name {
            return Some(i - 1);
        }
        i = i - 1;
    }
    assert(v@.take(0).len() == 0);
    None
}

fn copy_entries(v: &Vec<MuteEntry>) -> (r: Vec<MuteEntry>)
    ensures
        r@ == v@,
{
    let mut r: Vec<MuteEntry> = Vec::new();
    let mut i: usize = 0;
    while i < v.len()
        invariant
            i <= v.len(),
            r@ == v@.take(i as int),
        decreases v.len() - i,
    {
        r.push(v[i]);
        i = i + 1;
        assert(r@ =~= v@.take(i as int));
    }
    assert(v@.take(v.len() as int) =~= v@);
    r
}

fn retain_without(v: Vec<MuteEntry>, name: EventName) -> (r: Vec<MuteEntry>)
    ensures
        r@ == without(v@, name),
{
    let mut r: Vec<MuteEntry> = Vec::new();
    let mut i: usize = 0;
    while i < v.len()
        invariant
            i <= v.len(),
            r@ == without(v@.take(i as int), name),
        decreases v.len() - i,
    {
        let ghost t = v@.take(i + 1);
        assert(t.drop_last() =~= v@.take(i as int));
        assert(t.last() == v@[i as int]);
        if v[i].0 != name {
            r.push(v[i]);
        }
        i = i + 1;
    }
    assert(v@.take(v.len() as int) =~= v@);
    r
}

fn retain_unmute_types(v: Vec<MuteEntry>, name: EventName, types: EventHookTypes) -> (r: Vec<MuteEntry>)
    ensures
        r@ == unmute_types(v@, name, types),
{
    let mut r: Vec<MuteEntry> = Vec::new();
    let mut i: usize = 0;
    while i < v.len()
        invariant
            i <= v.len(),
            r@ == unmute_types(v@.take(i as int), name, types),
        decreases v.len() - i,
    {
        let ghost t = v@.take(i + 1);
        assert(t.drop_last() =~= v@.take(i as int));
        assert(t.last() == v@[i as int]);
        let x = v[i];
        if x.0 != name {
            r.push(x);
        } else if x.1.bits & types.bits == 0 {
        } else {
            r.push((x.0, EventHookTypes { bits: x.1.bits & !types.bits }));
        }
        i = i + 1;
    }
    assert(v@.take(v.len() as int) =~= v@);
    r
}

impl Replacements {
    /// No event is listed twice.
    pub open spec fn wf(&self) -> bool {
        distinct_names(self@)
    }

    #[verifier::type_invariant]
    spec fn inv(&self) -> bool {
        distinct_names(self.entries@)
    }

    /// The entries, in order; no event is listed twice.
    pub fn entries(&self) -> (r: &Vec<MuteEntry>)
        ensures
            r@ == self@,
            self.wf(),
    {
        proof {
            use_type_invariant(self);
        }
        &self.entries
    }

    /// The entries, unless an event is listed twice.
    pub fn from_entries(entries: Vec<MuteEntry>) -> (r: Option<Replacements>)
        ensures
            r is Some <==> distinct_names(entries@),
            r matches Some(x) ==> x@ == entries@,
    {
        let mut i: usize = 0;
        while i < entries.len()
            invariant
                i <= entries.len(),
                distinct_names(entries@.take(i as int)),
            decreases entries.len() - i,
        {
            let mut j: usize = 0;
            while j < i
                invariant
                    j <= i < entries.len(),
                    forall|k: int| 0 <= k < j ==> #[trigger] entries@[k].0 != entries@[i as int].0,
                decreases i - j,
            {
                if entries[j].0 == entries[i].0 {
                    assert(!distinct_names(entries@));
                    return None;
                }
                j = j + 1;
            }
            assert forall|a: int, b: int| 0 <= a < b < i + 1 implies #[trigger] entries@.take(i + 1)[a].0
                != #[trigger] entries@.take(i + 1)[b].0 by {
                if b < i {
                    assert(entries@.take(i as int)[a] == entries@[a]);
                    assert(entries@.take(i as int)[b] == entries@[b]);
                }
            }
            i = i + 1;
        }
        assert(entries@.take(entries.len() as int) =~= entries@);
        Some(Replacements { entries })
    }

    pub fn new() -> (r: Replacements)
        ensures
            r@ == Seq::<MuteEntry>::empty(),
    {
        Replacements { entries: Vec::new() }
    }

    /// Applies the pending notifications in order and publishes the result
    /// when the last of them asks for it; otherwise the entries stay as
    /// they were. So a later request that changes nothing cancels the
    /// publishing of an earlier one in the same batch. Returns whether the
    /// entries were published.
    pub fn update_mutes(&mut self, pending: Vec<ReplacementNotification>) -> (published: bool)
        ensures
            published == apply_notifications(old(self)@, false, pending@).1,
            final(self)@ == (if published {
                apply_notifications(old(self)@, false, pending@).0
            } else {
                old(self)@
            }),
    {
        proof {
            use_type_invariant(&*self);
        }
        if pending.len() == 0 {
            return false;
        }
        let mut next = copy_entries(&self.entries);
        let mut should_publish = false;
        let mut k: usize = 0;
        while k < pending.len()
            invariant
                k <= pending.len(),
                (next@, should_publish) == apply_notifications(self@, false, pending@.take(k as int)),
            decreases pending.len() - k,
        {
            let ghost before = (next@, should_publish);
            let ghost ns = pending@.take(k + 1);
            assert(ns.drop_last() =~= pending@.take(k as int));
            assert(ns.last() == pending@[k as int]);
            match pending[k] {
                ReplacementNotification::Mute(event_name) => {
                    match last_position(&next, event_name) {
                        None => {
                            next.push((event_name, EventHookTypes::all()));
                            should_publish = true;
                        },
                        Some(idx) => {
                            let mute = next[idx];
                            if !mute.1.is_all() {
                                next.set(idx, (mute.0, EventHookTypes { bits: mute.1.bits | 0x3fff }));
                                should_publish = true;
                            }
                        },
                    }
                },
                ReplacementNotification::MuteSpecific(event_name, types) => {
                    match last_position(&next, event_name) {
                        None => {
                            next.push((event_name, types));
                            should_publish = true;
                        },
                        Some(idx) => {
                            let mute = next[idx];
                            if !mute.1.contains(types) {
                                next.set(idx, (mute.0, EventHookTypes { bits: mute.1.bits | types.bits }));
                                should_publish = true;
                            }
                        },
                    }
                },
                ReplacementNotification::Unmute(event_name) => {
                    let before_len = next.len();
                    next = retain_without(next, event_name);
                    let after_len = next.len();
                    should_publish = before_len != after_len;
                },
                ReplacementNotification::UnmuteSpecific(event_name, types) => {
                    let before_len = next.len();
                    next = retain_unmute_types(next, event_name, types);
                    let after_len = next.len();
                    should_publish = before_len != after_len;
                },
            }
            proof {
                lemma_last_index_of(before.0, match pending@[k as int] {
                    ReplacementNotification::Mute(n) => n,
                    ReplacementNotification::MuteSpecific(n, _) => n,
                    ReplacementNotification::Unmute(n) => n,
                    ReplacementNotification::UnmuteSpecific(n, _) => n,
                });
            }
            k = k + 1;
        }
        assert(pending@.take(pending.len() as int) =~= pending@);
        proof {
            lemma_apply_all_distinct(self@, false, pending@);
        }
        if should_publish {
            self.entries = next;
        }
        should_publish
    }
}

} // verus!

verus! {

/// Script-facing manager of muted events: it validates requests, which the
/// engine loop then applies to the muted entries.
#[derive(Debug, Clone, Copy, Default)]
pub struct AudioEventManager;

impl AudioEventManager {
    /// The notification to send to mute `event_name`, or `None` when the
    /// name is invalid.
    pub fn mute(&self, event_name: CName) -> (r: Option<ReplacementNotification>)
        ensures
            r == (if event_name.spec_is_defined() {
                Some(ReplacementNotification::Mute(EventName(event_name)))
            } else {
                None
            }),
    {
        match EventName::try_new(event_name) {
            Ok(name) => Some(ReplacementNotification::Mute(name)),
            Err(_) => None,
        }
    }

    /// The notification to send to unmute `event_name`, or `None` when the
    /// name is invalid.
    pub fn unmute(&self, event_name: CName) -> (r: Option<ReplacementNotification>)
        ensures
            r == (if event_name.spec_is_defined() {
                Some(ReplacementNotification::Unmute(EventName(event_name)))
            } else {
                None
            }),
    {
        match EventName::try_new(event_name) {
            Ok(name) => Some(ReplacementNotification::Unmute(name)),
            Err(_) => None,
        }
    }

    /// The notification to send to mute some hooks of `event_name`, or
    /// `None` when a flag is unknown or the name is invalid.
    pub fn mute_specific(&self, event_name: CName, event_type: EventHookTypes) -> (r: Option<ReplacementNotification>)
        ensures
            r == (if event_type.bits & !all_hook_bits() != 0 || !event_name.spec_is_defined() {
                None
            } else {
                Some(ReplacementNotification::MuteSpecific(EventName(event_name), event_type))
            }),
    {
        if event_type.contains_unknown_bits() {
            return None;
        }
        match EventName::try_new(event_name) {
            Ok(name) => Some(ReplacementNotification::MuteSpecific(name, event_type)),
            Err(_) => None,
        }
    }

    /// The notification to send to unmute some hooks of `event_name`, or
    /// `None` when a flag is unknown or the name is invalid.
    pub fn unmute_specific(&self, event_name: CName, event_type: EventHookTypes) -> (r: Option<ReplacementNotification>)
        ensures
            r == (if event_type.bits & !all_hook_bits() != 0 || !event_name.spec_is_defined() {
                None
            } else {
                Some(ReplacementNotification::UnmuteSpecific(EventName(event_name), event_type))
            }),
    {
        if event_type.contains_unknown_bits() {
            return None;
        }
        match EventName::try_new(event_name) {
            Ok(name) => Some(ReplacementNotification::UnmuteSpecific(name, event_type)),
            Err(_) => None,
        }
    }

    /// Whether `event_name` is muted for every known hook: its entry holds
    /// exactly all of them.
    pub fn is_muted(&self, mutes: &Replacements, event_name: CName) -> (r: bool)
        ensures
            r == (event_name.spec_is_defined()
                && mutes@.contains((EventName(event_name), EventHookTypes { bits: all_hook_bits() }))),
    {
        match EventName::try_new(event_name) {
            Ok(name) => Mute::is_muted(mutes, name),
            Err(_) => false,
        }
    }

    /// Whether `event_name` is muted for exactly the hooks of `event_type`.
    pub fn is_specific_muted(&self, mutes: &Replacements, event_name: CName, event_type: EventHookTypes) -> (r: bool)
        ensures
            r == (event_type.bits & !all_hook_bits() == 0 && event_name.spec_is_defined()
                && mutes@.contains((EventName(event_name), event_type))),
    {
        if event_type.contains_unknown_bits() {
            return false;
        }
        match EventName::try_new(event_name) {
            Ok(name) => Mute::is_specific_muted(mutes, name, event_type),
            Err(_) => false,
        }
    }
}

fn position(v: &Vec<MuteEntry>, name: EventName) -> (r: Option<usize>)
    requires
        distinct_names(v@),
    ensures
        match r {
            None => last_index_of(v@, name) == -1,
            Some(i) => i as int == last_index_of(v@, name) && i < v.len(),
        },
{
    proof {
        lemma_last_index_of(v@, name);
    }
    let mut i: usize = 0;
    while i < v.len()
        invariant
            i <= v.len(),
            distinct_names(v@),
            -1 <= last_index_of(v@, name) < v@.len(),
            last_index_of(v@, name) >= 0 ==> v@[last_index_of(v@, name)].0 == name,
            last_index_of(v@, name) < 0 <==> !has_name(v@, name),
            forall|j: int| 0 <= j < i ==> #[trigger] v@[j].0 != name,
        decreases v.len() - i,
    {
        if v[i].0 == name {
            assert(has_name(v@, name));
            return Some(i);
        }
        i = i + 1;
    }
    None
}

proof fn lemma_update_keeps_distinct(s: Seq<MuteEntry>, name: EventName, e: MuteEntry)
    requires
        distinct_names(s),
        e.0 == name,
    ensures
        last_index_of(s, name) >= 0 ==> distinct_names(s.update(last_index_of(s, name), e)),
        last_index_of(s, name) < 0 ==> distinct_names(s.push(e)),
        last_index_of(s, name) >= 0 ==> distinct_names(s.remove(last_index_of(s, name))),
{
    lemma_last_index_of(s, name);
    let i = last_index_of(s, name);
    if i >= 0 {
        let r = s.remove(i);
        assert forall|a: int, b: int| 0 <= a < b < r.len() implies r[a].0 != r[b].0 by {
            let a2 = if a < i { a } else { a + 1 };
            let b2 = if b < i { b } else { b + 1 };
            assert(r[a] == s[a2] && r[b] == s[b2]);
        }
    } else {
        let r = s.push(e);
        assert forall|a: int, b: int| 0 <= a < b < r.len() implies r[a].0 != r[b].0 by {
            if b == s.len() {
                assert(r[a] == s[a]);
            }
        }
    }
}

impl Mute for Replacements {
    /// Mutes every hook of `event_name`.
    fn mute(&mut self, event_name: EventName)
        ensures
            final(self)@ == with_hooks(old(self)@, event_name, EventHookTypes { bits: all_hook_bits() }),
    {
        proof {
            use_type_invariant(&*self);
            lemma_last_index_of(self.entries@, event_name);
        }
        let all = EventHookTypes::all();
        let mut next = copy_entries(&self.entries);
        match position(&next, event_name) {
            Some(i) => {
                let x = next[i];
                let e = (x.0, EventHookTypes { bits: x.1.bits | all.bits });
                proof {
                    lemma_update_keeps_distinct(self.entries@, event_name, e);
                }
                next.set(i, e);
            },
            None => {
                proof {
                    lemma_update_keeps_distinct(self.entries@, event_name, (event_name, all));
                }
                next.push((event_name, all));
            },
        }
        self.entries = next;
    }

    /// Removes the entry of `event_name`, if any.
    fn unmute(&mut self, event_name: EventName)
        ensures
            final(self)@ == without_entry(old(self)@, event_name),
    {
        proof {
            use_type_invariant(&*self);
            lemma_last_index_of(self.entries@, event_name);
        }
        let mut next = copy_entries(&self.entries);
        if let Some(i) = position(&next, event_name) {
            proof {
                lemma_update_keeps_distinct(self.entries@, event_name, next@[i as int]);
            }
            next.remove(i);
            self.entries = next;
        }
    }

    /// Mutes the hooks of `event_type` for `event_name`.
    fn mute_specific(&mut self, event_name: EventName, event_type: EventHookTypes)
        ensures
            final(self)@ == with_hooks(old(self)@, event_name, event_type),
    {
        proof {
            use_type_invariant(&*self);
            lemma_last_index_of(self.entries@, event_name);
        }
        let mut next = copy_entries(&self.entries);
        match position(&next, event_name) {
            Some(i) => {
                let x = next[i];
                let e = (x.0, EventHookTypes { bits: x.1.bits | event_type.bits });
                proof {
                    lemma_update_keeps_distinct(self.entries@, event_name, e);
                }
                next.set(i, e);
            },
            None => {
                proof {
                    lemma_update_keeps_distinct(self.entries@, event_name, (event_name, event_type));
                }
                next.push((event_name, event_type));
            },
        }
        self.entries = next;
    }

    /// Unmutes the hooks of `event_type` for `event_name`; the entry stays.
    fn unmute_specific(&mut self, event_name: EventName, event_type: EventHookTypes)
        ensures
            final(self)@ == without_hooks(old(self)@, event_name, event_type),
    {
        proof {
            use_type_invariant(&*self);
            lemma_last_index_of(self.entries@, event_name);
        }
        let mut next = copy_entries(&self.entries);
        if let Some(i) = position(&next, event_name) {
            let x = next[i];
            let e = (x.0, EventHookTypes { bits: x.1.bits & !event_type.bits });
            proof {
                lemma_update_keeps_distinct(self.entries@, event_name, e);
            }
            next.set(i, e);
            self.entries = next;
        }
    }

    /// Whether `event_name` is muted for exactly every known hook.
    fn is_muted(&self, event_name: EventName) -> (r: bool)
        ensures
            r == self@.contains((event_name, EventHookTypes { bits: all_hook_bits() })),
    {
        let all = EventHookTypes::all();
        contains_entry(&self.entries, (event_name, all))
    }

    /// Whether `event_name` is muted for exactly the hooks of `event_type`.
    fn is_specific_muted(&self, event_name: EventName, event_type: EventHookTypes) -> (r: bool)
        ensures
            r == self@.contains((event_name, event_type)),
    {
        contains_entry(&self.entries, (event_name, event_type))
    }
}

fn contains_entry(v: &Vec<MuteEntry>, e: MuteEntry) -> (r: bool)
    ensures
        r == v@.contains(e),
{
    let mut i: usize = 0;
    while i < v.len()
        invariant
            i <= v.len(),
            forall|j: int| 0 <= j < i ==> #[trigger] v@[j] != e,
        decreases v.len() - i,
    {
        if v[i].0 == e.0 && v[i].1 == e.1 {
            assert(v@[i as int] == e);
            return true;
        }
        i = i + 1;
    }
    false
}

proof fn lemma_known_bits(b: u16, t: u16)
    by (bit_vector)
    ensures
        b & !0x3fffu16 == 0 ==> b | 0x3fffu16 == 0x3fffu16,
        (b | t) & t == t,
        (b & !t) & t == 0,
{
}

proof fn lemma_only_entry(s: Seq<MuteEntry>, name: EventName, j: int)
    requires
        distinct_names(s),
        0 <= j < s.len(),
        s[j].0 == name,
    ensures
        last_index_of(s, name) == j,
{
    lemma_last_index_of(s, name);
    let i = last_index_of(s, name);
    if i != j {
        assert(s[i].0 == s[j].0);
    }
}

/// Once an event is muted, it is muted, unless its entry held hooks
/// outside the known ones.
pub proof fn law_mute_then_muted(s: Seq<MuteEntry>, name: EventName)
    requires
        distinct_names(s),
        forall|i: int| 0 <= i < s.len() && #[trigger] s[i].0 == name ==> s[i].1.bits & !all_hook_bits() == 0,
    ensures
        with_hooks(s, name, EventHookTypes { bits: all_hook_bits() }).contains(
            (name, EventHookTypes { bits: all_hook_bits() }),
        ),
{
    lemma_last_index_of(s, name);
    let i = last_index_of(s, name);
    let all = EventHookTypes { bits: all_hook_bits() };
    let r = with_hooks(s, name, all);
    if i < 0 {
        assert(r[s.len() as int] == (name, all));
    } else {
        lemma_known_bits(s[i].1.bits, all_hook_bits());
        assert(r[i] == (name, all));
    }
}

/// Once some hooks of an event are muted, the event is muted for them; when
/// the event was not listed, its entry holds exactly those hooks.
pub proof fn law_mute_specific_then_muted(s: Seq<MuteEntry>, name: EventName, types: EventHookTypes)
    ensures
        spec_is_specific_muted(with_hooks(s, name, types), name, types),
        !has_name(s, name) ==> with_hooks(s, name, types).contains((name, types)),
{
    lemma_last_index_of(s, name);
    let i = last_index_of(s, name);
    let r = with_hooks(s, name, types);
    if i < 0 {
        assert(r[s.len() as int] == (name, types));
        lemma_hook_bits(0, types.bits);
    } else {
        lemma_known_bits(s[i].1.bits, types.bits);
        assert(r[i].0 == name && r[i].1.bits & types.bits == types.bits);
    }
}

/// Once an event is unmuted, no entry is left for it.
pub proof fn law_unmute_then_unmuted(s: Seq<MuteEntry>, name: EventName, types: EventHookTypes)
    requires
        distinct_names(s),
    ensures
        !without_entry(s, name).contains((name, types)),
        !without_entry(s, name).contains((name, EventHookTypes { bits: all_hook_bits() })),
{
    lemma_last_index_of(s, name);
    let i = last_index_of(s, name);
    let r = without_entry(s, name);
    assert forall|k: int| 0 <= k < r.len() implies #[trigger] r[k].0 != name by {
        if i >= 0 {
            let k2 = if k < i { k } else { k + 1 };
            assert(r[k] == s[k2]);
            if s[k2].0 == name {
                lemma_only_entry(s, name, k2);
            }
        } else {
            assert(r[k] == s[k]);
        }
    }
}

/// Once some hooks of an event are unmuted, its entry holds none of them.
pub proof fn law_unmute_specific_clears(s: Seq<MuteEntry>, name: EventName, types: EventHookTypes)
    requires
        distinct_names(s),
    ensures
        forall|k: int| 0 <= k < without_hooks(s, name, types).len()
            && (#[trigger] without_hooks(s, name, types)[k]).0 == name
            ==> without_hooks(s, name, types)[k].1.bits & types.bits == 0,
{
    lemma_last_index_of(s, name);
    let i = last_index_of(s, name);
    let r = without_hooks(s, name, types);
    assert forall|k: int| 0 <= k < r.len() && (#[trigger] r[k]).0 == name implies r[k].1.bits & types.bits == 0 by {
        if i >= 0 {
            lemma_only_entry(s, name, k);
            lemma_known_bits(s[i].1.bits, types.bits);
        } else {
            assert(has_name(s, name));
        }
    }
}

} // verus!
