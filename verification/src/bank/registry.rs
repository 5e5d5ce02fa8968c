//! The registry of audio ids, and the lookup of a name in it.

use vstd::prelude::*;

use crate::bank::error::{Error, RegistryError, ValidationError};
use crate::bank::id::{id_key, id_name, Id, IdView, UsageView};
use crate::bank::key::{BothKey, GenderKey, Key, LocaleKey, UniqueKey};
use crate::manifest::{Locale, PlayerGender, SpokenLocale};
use crate::bank::subtitles::{push_unique, Subtitles};
use crate::names::CName;

verus! {

/// The id settles a lookup of `name`: the name matches, and so do the
/// spoken locale and the gender where the key has them (a missing gender
/// settles the lookup too, as an error).
pub open spec fn decides(i: IdView, name: CName, spoken: SpokenLocale, gender: Option<PlayerGender>) -> bool {
    match id_key(i) {
        Key::Unique(UniqueKey(n)) => n == name,
        Key::Gender(GenderKey(n, g)) => n == name && (gender is None || gender == Some(g)),
        Key::Locale(LocaleKey(n, l)) => n == name && l == spoken.0,
        Key::Both(BothKey(n, l, g)) => n == name && l == spoken.0 && (gender is None || gender == Some(g)),
    }
}

/// The id settles the lookup with an error, since its key has a gender and
/// none was given.
pub open spec fn needs_gender(i: IdView, gender: Option<PlayerGender>) -> bool {
    gender is None && (id_key(i) is Gender || id_key(i) is Both)
}

/// The id is audio of `name` that exists per spoken locale.
pub open spec fn localized(i: IdView, name: CName) -> bool {
    match id_key(i) {
        Key::Locale(LocaleKey(n, _)) => n == name,
        Key::Both(BothKey(n, _, _)) => n == name,
        _ => false,
    }
}

/// `i` is the first index of `s` whose id settles the lookup.
pub open spec fn first_decider(
    s: Seq<IdView>,
    name: CName,
    spoken: SpokenLocale,
    gender: Option<PlayerGender>,
    i: int,
) -> bool {
    &&& 0 <= i < s.len()
    &&& decides(s[i], name, spoken, gender)
    &&& forall|j: int| 0 <= j < i ==> !decides(#[trigger] s[j], name, spoken, gender)
}

pub open spec fn any_localized(s: Seq<IdView>, name: CName) -> bool {
    exists|j: int| 0 <= j < s.len() && localized(#[trigger] s[j], name)
}

/// Some id of `s` has the name.
pub open spec fn any_named(s: Seq<IdView>, name: CName) -> bool {
    exists|j: int| 0 <= j < s.len() && id_name(#[trigger] s[j]) == name
}

/// The gender given, as a value.
pub open spec fn gender_view(g: Option<&PlayerGender>) -> Option<PlayerGender> {
    match g {
        Some(x) => Some(*x),
        None => None,
    }
}

/// What a lookup of `name` gives: the first id that settles it, which is
/// an error where the gender is missing; with none, whether the name exists
/// in other locales.
pub open spec fn lookup(s: Seq<IdView>, name: CName, spoken: SpokenLocale, gender: Option<PlayerGender>) -> Result<IdView, RegistryError> {
    if exists|i: int| #[trigger] first_decider(s, name, spoken, gender, i) {
        let i = choose|i: int| #[trigger] first_decider(s, name, spoken, gender, i);
        if needs_gender(s[i], gender) {
            Err(RegistryError::RequireGender { cname: name })
        } else {
            Ok(s[i])
        }
    } else if any_localized(s, name) {
        Err(RegistryError::MissingSpokenLocale { cname: name, locale: spoken })
    } else {
        Err(RegistryError::NotFound { cname: name })
    }
}

/// At most one index is the first to settle a lookup.
pub proof fn lemma_first_decider_unique(s: Seq<IdView>, name: CName, spoken: SpokenLocale, gender: Option<PlayerGender>, i: int, j: int)
    requires
        first_decider(s, name, spoken, gender, i),
        first_decider(s, name, spoken, gender, j),
    ensures
        i == j,
{
    if i < j {
        assert(!decides(s[i], name, spoken, gender));
    } else if j < i {
        assert(!decides(s[j], name, spoken, gender));
    }
}

pub open spec fn is_on_demand_static(i: IdView) -> bool {
    i matches IdView::OnDemand(UsageView::Static(..), _)
}

pub open spec fn is_on_demand_streaming(i: IdView) -> bool {
    i matches IdView::OnDemand(UsageView::Streaming(..), _)
}

pub open spec fn is_in_memory(i: IdView) -> bool {
    i is InMemory
}

/// The number of ids of `s` on demand and decoded, on demand and streamed,
/// and in memory.
pub open spec fn id_counts(s: Seq<IdView>) -> (nat, nat, nat)
    decreases s.len(),
{
    if s.len() == 0 {
        (0, 0, 0)
    } else {
        let (a, b, c) = id_counts(s.drop_last());
        let x = s.last();
        (
            if is_on_demand_static(x) { a + 1 } else { a },
            if is_on_demand_streaming(x) { b + 1 } else { b },
            if is_in_memory(x) { c + 1 } else { c },
        )
    }
}

/// The counts add up to the number of ids.
pub proof fn lemma_id_counts(s: Seq<IdView>)
    ensures
        id_counts(s).0 + id_counts(s).1 + id_counts(s).2 == s.len(),
    decreases s.len(),
{
    if s.len() > 0 {
        lemma_id_counts(s.drop_last());
    }
}

/// Where `i` is the first index to settle a lookup, the lookup gives its
/// verdict.
pub proof fn lemma_lookup_at(s: Seq<IdView>, name: CName, spoken: SpokenLocale, gender: Option<PlayerGender>, i: int)
    requires
        first_decider(s, name, spoken, gender, i),
    ensures
        lookup(s, name, spoken, gender) == if needs_gender(s[i], gender) {
            Err::<IdView, RegistryError>(RegistryError::RequireGender { cname: name })
        } else {
            Ok::<IdView, RegistryError>(s[i])
        },
{
    let j = choose|j: int| #[trigger] first_decider(s, name, spoken, gender, j);
    lemma_first_decider_unique(s, name, spoken, gender, i, j);
}

/// A set of ids: no id occurs twice.
pub struct Ids {
    ids: Vec<Id>,
}

impl View for Ids {
    type V = Seq<IdView>;

    closed spec fn view(&self) -> Seq<IdView> {
        self.ids@.map_values(|i: Id| i@)
    }
}

impl Ids {
    #[verifier::type_invariant]
    spec fn wf(self) -> bool {
        self@.no_duplicates()
    }

    /// The empty set.
    pub fn new() -> (r: Ids)
        ensures
            r@ == Seq::<IdView>::empty(),
    {
        let r = Ids { ids: Vec::new() };
        assert(r@ =~= Seq::<IdView>::empty());
        r
    }

    pub fn len(&self) -> (r: usize)
        ensures
            r == self@.len(),
            self@.no_duplicates(),
    {
        proof {
            use_type_invariant(self);
        }
        self.ids.len()
    }

    /// The id at `i`.
    pub fn get(&self, i: usize) -> (r: &Id)
        requires
            i < self@.len(),
        ensures
            r@ == self@[i as int],
    {
        &self.ids[i]
    }

    /// Whether an id equal to `id` is in the set.
    pub fn contains(&self, id: &Id) -> (r: bool)
        ensures
            r == self@.contains(id@),
    {
        let mut i: usize = 0;
        while i < self.ids.len()
            invariant
                i <= self.ids.len(),
                self@ == self.ids@.map_values(|x: Id| x@),
                forall|j: int| 0 <= j < i ==> self@[j] != id@,
            decreases self.ids.len() - i,
        {
            if self.ids[i].same_as(id) {
                assert(self@[i as int] == id@);
                return true;
            }
            i = i + 1;
        }
        false
    }

    /// Adds `id` unless it is in the set already; says whether it was added.
    pub fn insert(&mut self, id: Id) -> (r: bool)
        ensures
            r == !old(self)@.contains(id@),
            r ==> final(self)@ == old(self)@.push(id@),
            !r ==> final(self)@ == old(self)@,
    {
        proof {
            use_type_invariant(&*self);
        }
        if self.contains(&id) {
            return false;
        }
        let ghost prev = self@;
        let mut ids = Vec::new();
        std::mem::swap(&mut ids, &mut self.ids);
        let ghost v = id@;
        ids.push(id);
        proof {
            assert(ids@.map_values(|x: Id| x@) =~= prev.push(v));
            assert forall|a: int, b: int| 0 <= a < b < prev.push(v).len() implies prev.push(v)[a] != prev.push(v)[b] by {
                if b == prev.len() {
                    assert(prev.contains(prev[a]));
                }
            }
        }
        self.ids = ids;
        true
    }
}

/// The spoken locale of an id, if its key has one.
pub open spec fn id_locale(i: IdView) -> Option<Locale> {
    match id_key(i) {
        Key::Locale(LocaleKey(_, l)) => Some(l),
        Key::Both(BothKey(_, l, _)) => Some(l),
        _ => None,
    }
}

/// Some id is voiced in the locale `l`.
pub open spec fn spoken_in(s: Seq<IdView>, l: Locale) -> bool {
    exists|j: int| 0 <= j < s.len() && #[trigger] id_locale(s[j]) == Some(l)
}

/// The keys under which something is stored: each key once.
pub struct KeyStore {
    keys: Vec<Key>,
}

impl View for KeyStore {
    type V = Seq<Key>;

    closed spec fn view(&self) -> Seq<Key> {
        self.keys@
    }
}

impl KeyStore {
    #[verifier::type_invariant]
    spec fn wf(self) -> bool {
        self.keys@.no_duplicates()
    }

    /// No key.
    pub fn new() -> (r: KeyStore)
        ensures
            r@ == Seq::<Key>::empty(),
    {
        KeyStore { keys: Vec::new() }
    }

    /// Whether `key` is stored.
    pub fn contains(&self, key: &Key) -> (r: bool)
        ensures
            r == self@.contains(*key),
    {
        let mut i: usize = 0;
        while i < self.keys.len()
            invariant
                i <= self.keys@.len(),
                forall|j: int| 0 <= j < i ==> self@[j] != *key,
            decreases self.keys@.len() - i,
        {
            if self.keys[i] == *key {
                assert(self@[i as int] == *key);
                return true;
            }
            i = i + 1;
        }
        false
    }

    /// Stores `key` unless it is stored already; says whether it was added.
    pub fn insert(&mut self, key: Key) -> (r: bool)
        ensures
            r == !old(self)@.contains(key),
            r ==> final(self)@ == old(self)@.push(key),
            !r ==> final(self)@ == old(self)@,
            final(self)@.no_duplicates(),
    {
        proof {
            use_type_invariant(&*self);
        }
        if self.contains(&key) {
            return false;
        }
        let ghost prev = self@;
        let mut keys = Vec::new();
        std::mem::swap(&mut keys, &mut self.keys);
        keys.push(key);
        proof {
            assert forall|a: int, b: int| 0 <= a < b < keys@.len() implies keys@[a] != keys@[b] by {
                if b == prev.len() {
                    assert(prev.contains(prev[a]));
                } else {
                    assert(keys@[a] == prev[a] && keys@[b] == prev[b]);
                }
            }
        }
        self.keys = keys;
        true
    }
}

/// The banks: every id whose audio exists and is valid, the keys under
/// which audio data is kept in memory, the keys under which settings are
/// kept for audio loaded on demand, the names the banks added to the
/// game's name pool, and the subtitles of the voices.
pub struct Banks {
    pub ids: Ids,
    pub data: KeyStore,
    pub settings: KeyStore,
    pub pooled: Vec<String>,
    pub subtitles: Subtitles,
}

impl Banks {
    /// Banks without any id.
    pub fn new() -> (r: Banks)
        ensures
            r.ids@ == Seq::<IdView>::empty(),
            r.data@ == Seq::<Key>::empty(),
            r.settings@ == Seq::<Key>::empty(),
            r.pooled@ == Seq::<String>::empty(),
            r.subtitles.single@ == Seq::<(LocaleKey, Seq<char>)>::empty(),
            r.subtitles.dual@ == Seq::<(BothKey, Seq<char>)>::empty(),
    {
        Banks {
            ids: Ids::new(),
            data: KeyStore::new(),
            settings: KeyStore::new(),
            pooled: Vec::new(),
            subtitles: Subtitles::new(),
        }
    }

    /// Every language found in the manifests, each once: the spoken locale
    /// of every voice line registered, and the locale of every subtitle.
    pub fn languages(&self) -> (r: Vec<Locale>)
        ensures
            r@.no_duplicates(),
            forall|l: Locale| r@.contains(l) <==> (
                spoken_in(self.ids@, l)
                || (exists|i: int| 0 <= i < self.subtitles.single@.len() && (#[trigger] self.subtitles.single@[i]).0.1 == l)
                || (exists|i: int| 0 <= i < self.subtitles.dual@.len() && (#[trigger] self.subtitles.dual@[i]).0.1 == l)),
    {
        let mut out: Vec<Locale> = Vec::new();
        let mut i: usize = 0;
        while i < self.ids.len()
            invariant
                i <= self.ids@.len(),
                out@.no_duplicates(),
                forall|l: Locale| #[trigger] out@.contains(l) <==> spoken_in(self.ids@.take(i as int), l),
            decreases self.ids@.len() - i,
        {
            let ghost before = out@;
            let id = self.ids.get(i);
            match id.key() {
                Key::Locale(LocaleKey(_, l)) => push_unique(&mut out, *l),
                Key::Both(BothKey(_, l, _)) => push_unique(&mut out, *l),
                _ => {},
            }
            proof {
                let s = self.ids@;
                assert(s.take(i as int + 1) =~= s.take(i as int).push(s[i as int]));
                assert forall|l: Locale| #[trigger] out@.contains(l) <==> spoken_in(s.take(i as int + 1), l) by {
                    if spoken_in(s.take(i as int + 1), l) {
                        let j = choose|j: int| 0 <= j < i + 1 && #[trigger] id_locale(s.take(i as int + 1)[j]) == Some(l);
                        if j < i {
                            assert(s.take(i as int)[j] == s.take(i as int + 1)[j]);
                        }
                    }
                    if spoken_in(s.take(i as int), l) {
                        let j = choose|j: int| 0 <= j < i && #[trigger] id_locale(s.take(i as int)[j]) == Some(l);
                        assert(s.take(i as int + 1)[j] == s.take(i as int)[j]);
                    }
                    if id_locale(s[i as int]) == Some(l) {
                        assert(s.take(i as int + 1)[i as int] == s[i as int]);
                    }
                }
            }
            i = i + 1;
        }
        assert(self.ids@.take(self.ids@.len() as int) =~= self.ids@);
        let more = self.subtitles.locales();
        let ghost first = out@;
        let mut j: usize = 0;
        while j < more.len()
            invariant
                j <= more@.len(),
                out@.no_duplicates(),
                forall|l: Locale| first.contains(l) <==> spoken_in(self.ids@, l),
                forall|l: Locale| #[trigger] out@.contains(l) <==> (first.contains(l) || more@.take(j as int).contains(l)),
            decreases more@.len() - j,
        {
            push_unique(&mut out, more[j]);
            proof {
                assert(more@.take(j as int + 1) =~= more@.take(j as int).push(more@[j as int]));
                assert forall|l: Locale| #[trigger] out@.contains(l) <==> (first.contains(l) || more@.take(j as int + 1).contains(l)) by {
                    if l == more@[j as int] {
                        assert(more@.take(j as int + 1)[j as int] == l);
                    }
                    if more@.take(j as int + 1).contains(l) && l != more@[j as int] {
                        let t = more@.take(j as int + 1);
                        let k = choose|k: int| 0 <= k < t.len() && t[k] == l;
                        assert(more@.take(j as int)[k] == l);
                    }
                    if more@.take(j as int).contains(l) {
                        let t = more@.take(j as int);
                        let k = choose|k: int| 0 <= k < t.len() && t[k] == l;
                        assert(more@.take(j as int + 1)[k] == l);
                    }
                }
            }
            j = j + 1;
        }
        assert(more@.take(more@.len() as int) =~= more@);
        out
    }

    /// The ids of the banks.
    pub fn ids(&self) -> (r: &Ids)
        ensures
            r@ == self.ids@,
    {
        &self.ids
    }

    /// Whether audio exists for `cname`; never for the undefined name.
    pub fn exists_audio(&self, cname: &CName) -> (r: bool)
        ensures
            r == (cname.spec_is_defined() && any_named(self.ids@, *cname)),
    {
        if !cname.is_defined() {
            return false;
        }
        let mut i: usize = 0;
        while i < self.ids.len()
            invariant
                i <= self.ids@.len(),
                cname.spec_is_defined(),
                forall|j: int| 0 <= j < i ==> id_name(#[trigger] self.ids@[j]) != *cname,
            decreases self.ids@.len() - i,
        {
            if self.ids.get(i).name() == *cname {
                assert(id_name(self.ids@[i as int]) == *cname);
                return true;
            }
            i = i + 1;
        }
        false
    }

    /// Looks `name` up for the spoken locale and, where the audio exists
    /// per gender, the player gender. The first id that settles the lookup
    /// gives the answer; with none, the error says whether the name exists
    /// in other locales.
    pub fn try_get(&self, name: &CName, spoken: &SpokenLocale, gender: Option<&PlayerGender>) -> (r: Result<&Id, Error>)
        ensures
            match lookup(self.ids@, *name, *spoken, gender_view(gender)) {
                Ok(v) => r matches Ok(id) && id@ == v,
                Err(e) => r == Err::<&Id, Error>(Error::Registry { source: e }),
            },
    {
        let ghost g = gender_view(gender);
        let ghost s = self.ids@;
        let mut maybe_missing_locale = false;
        let mut i: usize = 0;
        while i < self.ids.len()
            invariant
                i <= s.len(),
                s == self.ids@,
                g == gender_view(gender),
                forall|j: int| 0 <= j < i ==> !decides(#[trigger] s[j], *name, *spoken, g),
                maybe_missing_locale == exists|j: int| 0 <= j < i && localized(#[trigger] s[j], *name),
            decreases s.len() - i,
        {
            let id = self.ids.get(i);
            let key = id.key();
            proof {
                assert(*key == id_key(s[i as int]));
            }
            if let Some(UniqueKey(k)) = key.as_unique() {
                if *k == *name {
                    proof { lemma_lookup_at(s, *name, *spoken, g, i as int); }
                    return Ok(id);
                }
            }
            if let Some(GenderKey(k, kg)) = key.as_gender() {
                if *k == *name {
                    match gender {
                        None => {
                            proof { lemma_lookup_at(s, *name, *spoken, g, i as int); }
                            return Err(Error::Registry { source: RegistryError::RequireGender { cname: *name } });
                        },
                        Some(x) => {
                            if *x == *kg {
                                proof { lemma_lookup_at(s, *name, *spoken, g, i as int); }
                                return Ok(id);
                            }
                        },
                    }
                }
            }
            if let Some(LocaleKey(k, l)) = key.as_locale() {
                if *k == *name {
                    maybe_missing_locale = true;
                    if *l == spoken.0 {
                        proof { lemma_lookup_at(s, *name, *spoken, g, i as int); }
                        return Ok(id);
                    }
                }
            }
            if let Some(BothKey(k, l, kg)) = key.as_both() {
                if *k == *name {
                    maybe_missing_locale = true;
                    if *l == spoken.0 {
                        match gender {
                            None => {
                                proof { lemma_lookup_at(s, *name, *spoken, g, i as int); }
                                return Err(Error::Registry { source: RegistryError::RequireGender { cname: *name } });
                            },
                            Some(x) => {
                                if *x == *kg {
                                    proof { lemma_lookup_at(s, *name, *spoken, g, i as int); }
                                    return Ok(id);
                                }
                            },
                        }
                    }
                }
            }
            proof {
                assert(!decides(s[i as int], *name, *spoken, g));
            }
            i = i + 1;
        }
        proof {
            assert(!exists|i: int| #[trigger] first_decider(s, *name, *spoken, g, i));
        }
        if maybe_missing_locale {
            return Err(Error::Registry {
                source: RegistryError::MissingSpokenLocale { cname: *name, locale: *spoken },
            });
        }
        Err(Error::Registry { source: RegistryError::NotFound { cname: *name } })
    }

    /// The number of ids on demand and decoded, on demand and streamed, and
    /// in memory.
    pub fn id_counts(&self) -> (r: (usize, usize, usize))
        ensures
            r.0 == id_counts(self.ids@).0,
            r.1 == id_counts(self.ids@).1,
            r.2 == id_counts(self.ids@).2,
    {
        let ghost s = self.ids@;
        let mut a: usize = 0;
        let mut b: usize = 0;
        let mut c: usize = 0;
        let mut i: usize = 0;
        while i < self.ids.len()
            invariant
                i <= s.len(),
                s == self.ids@,
                (a as nat, b as nat, c as nat) == id_counts(s.take(i as int)),
            decreases s.len() - i,
        {
            proof {
                assert(s.take(i as int + 1).drop_last() =~= s.take(i as int));
                lemma_id_counts(s.take(i as int));
            }
            match self.ids.get(i) {
                Id::OnDemand(crate::bank::id::Usage::Static(..), _) => a = a + 1,
                Id::OnDemand(crate::bank::id::Usage::Streaming(..), _) => b = b + 1,
                Id::InMemory(..) => c = c + 1,
            }
            i = i + 1;
        }
        assert(s.take(s.len() as int) =~= s);
        (a, b, c)
    }
}

/// Stores `id` in the registry; an id stored already is refused.
pub fn ensure_store_id(id: Id, store: &mut Ids) -> (r: Result<(), Error>)
    ensures
        r is Ok <==> !old(store)@.contains(id@),
        r is Ok ==> final(store)@ == old(store)@.push(id@),
        r is Err ==> final(store)@ == old(store)@,
        r matches Err(e) ==> (e matches Error::Validation {
            source: ValidationError::CannotStoreAgnosticId { id: x },
        } && x@ == id@),
{
    let copy = id.duplicate();
    if store.insert(id) {
        Ok(())
    } else {
        Err(Error::Validation { source: ValidationError::CannotStoreAgnosticId { id: copy } })
    }
}

/// A lookup that succeeds gives an id of the name asked for, in the spoken
/// locale and for the player gender wherever its key has them.
pub proof fn law_lookup_matches_request(s: Seq<IdView>, name: CName, spoken: SpokenLocale, gender: Option<PlayerGender>)
    ensures
        lookup(s, name, spoken, gender) matches Ok(v) ==> {
            &&& id_name(v) == name
            &&& id_key(v) matches Key::Locale(LocaleKey(_, l)) ==> l == spoken.0
            &&& id_key(v) matches Key::Gender(GenderKey(_, g)) ==> gender == Some(g)
            &&& id_key(v) matches Key::Both(BothKey(_, l, g)) ==> l == spoken.0 && gender == Some(g)
        },
{
}

/// A name without any id is not found.
pub proof fn law_unknown_name_not_found(s: Seq<IdView>, name: CName, spoken: SpokenLocale, gender: Option<PlayerGender>)
    requires
        !any_named(s, name),
    ensures
        lookup(s, name, spoken, gender) == Err::<IdView, RegistryError>(RegistryError::NotFound { cname: name }),
{
    assert forall|j: int| 0 <= j < s.len() implies !decides(#[trigger] s[j], name, spoken, gender) by {
        assert(id_name(s[j]) != name);
    }
    assert forall|j: int| 0 <= j < s.len() implies !localized(#[trigger] s[j], name) by {
        assert(id_name(s[j]) != name);
    }
    assert(!exists|i: int| #[trigger] first_decider(s, name, spoken, gender, i));
}

/// Where every id of a name exists once for the name alone, looking the
/// name up gives the first of them, whatever the locale and gender.
pub proof fn law_unique_name_found(s: Seq<IdView>, name: CName, spoken: SpokenLocale, gender: Option<PlayerGender>, k: int)
    requires
        0 <= k < s.len(),
        id_key(s[k]) == Key::Unique(UniqueKey(name)),
        forall|j: int| 0 <= j < s.len() && id_name(#[trigger] s[j]) == name ==> id_key(s[j]) is Unique,
    ensures
        lookup(s, name, spoken, gender) matches Ok(v) && id_key(v) == Key::Unique(UniqueKey(name)),
{
    lemma_first_decider(s, name, spoken, gender, k);
    let i = choose|i: int| #[trigger] first_decider(s, name, spoken, gender, i);
    assert(id_name(s[i]) == name);
    lemma_lookup_at(s, name, spoken, gender, i);
}

/// Where every id of a name exists per gender, a lookup without a gender
/// asks for one; with a gender, it finds the id of that gender when there
/// is one, and otherwise finds nothing.
pub proof fn law_gendered_name(s: Seq<IdView>, name: CName, spoken: SpokenLocale, gender: Option<PlayerGender>)
    requires
        any_named(s, name),
        forall|j: int| 0 <= j < s.len() && id_name(#[trigger] s[j]) == name ==> id_key(s[j]) is Gender,
    ensures
        gender is None ==> lookup(s, name, spoken, gender) == Err::<IdView, RegistryError>(
            RegistryError::RequireGender { cname: name },
        ),
        gender matches Some(g) ==> {
            if exists|j: int| 0 <= j < s.len() && id_key(#[trigger] s[j]) == Key::Gender(GenderKey(name, g)) {
                lookup(s, name, spoken, gender) matches Ok(v) && id_key(v) == Key::Gender(GenderKey(name, g))
            } else {
                lookup(s, name, spoken, gender) == Err::<IdView, RegistryError>(RegistryError::NotFound { cname: name })
            }
        },
{
    let k = choose|k: int| 0 <= k < s.len() && id_name(#[trigger] s[k]) == name;
    if gender is None {
        lemma_first_decider(s, name, spoken, gender, k);
        let i = choose|i: int| #[trigger] first_decider(s, name, spoken, gender, i);
        assert(id_name(s[i]) == name);
        lemma_lookup_at(s, name, spoken, gender, i);
    } else {
        let g = gender.unwrap();
        if exists|j: int| 0 <= j < s.len() && id_key(#[trigger] s[j]) == Key::Gender(GenderKey(name, g)) {
            let j = choose|j: int| 0 <= j < s.len() && id_key(#[trigger] s[j]) == Key::Gender(GenderKey(name, g));
            lemma_first_decider(s, name, spoken, gender, j);
            let i = choose|i: int| #[trigger] first_decider(s, name, spoken, gender, i);
            assert(id_name(s[i]) == name);
            lemma_lookup_at(s, name, spoken, gender, i);
        } else {
            assert forall|j: int| 0 <= j < s.len() implies !decides(#[trigger] s[j], name, spoken, gender) by {
                if id_name(s[j]) == name {
                    assert(id_key(s[j]) is Gender);
                    assert(id_key(s[j]) != Key::Gender(GenderKey(name, g)));
                }
            }
            assert forall|j: int| 0 <= j < s.len() implies !localized(#[trigger] s[j], name) by {
                if id_name(s[j]) == name {
                    assert(id_key(s[j]) is Gender);
                }
            }
            assert(!exists|i: int| #[trigger] first_decider(s, name, spoken, gender, i));
        }
    }
}

/// Where every id of a name exists per spoken locale, a lookup finds the
/// id of the spoken locale when there is one, and otherwise says the locale
/// is missing.
pub proof fn law_localized_name(s: Seq<IdView>, name: CName, spoken: SpokenLocale, gender: Option<PlayerGender>)
    requires
        any_named(s, name),
        forall|j: int| 0 <= j < s.len() && id_name(#[trigger] s[j]) == name ==> id_key(s[j]) is Locale,
    ensures
        if exists|j: int| 0 <= j < s.len() && id_key(#[trigger] s[j]) == Key::Locale(LocaleKey(name, spoken.0)) {
            lookup(s, name, spoken, gender) matches Ok(v) && id_key(v) == Key::Locale(LocaleKey(name, spoken.0))
        } else {
            lookup(s, name, spoken, gender) == Err::<IdView, RegistryError>(
                RegistryError::MissingSpokenLocale { cname: name, locale: spoken },
            )
        },
{
    let k = choose|k: int| 0 <= k < s.len() && id_name(#[trigger] s[k]) == name;
    if exists|j: int| 0 <= j < s.len() && id_key(#[trigger] s[j]) == Key::Locale(LocaleKey(name, spoken.0)) {
        let j = choose|j: int| 0 <= j < s.len() && id_key(#[trigger] s[j]) == Key::Locale(LocaleKey(name, spoken.0));
        lemma_first_decider(s, name, spoken, gender, j);
        let i = choose|i: int| #[trigger] first_decider(s, name, spoken, gender, i);
        assert(id_name(s[i]) == name);
        lemma_lookup_at(s, name, spoken, gender, i);
    } else {
        assert forall|j: int| 0 <= j < s.len() implies !decides(#[trigger] s[j], name, spoken, gender) by {
            if id_name(s[j]) == name {
                assert(id_key(s[j]) is Locale);
                assert(id_key(s[j]) != Key::Locale(LocaleKey(name, spoken.0)));
            }
        }
        assert(id_key(s[k]) is Locale);
        assert(localized(s[k], name));
        assert(!exists|i: int| #[trigger] first_decider(s, name, spoken, gender, i));
    }
}

/// The id is audio of `name` per locale and gender, in the locale `l`.
pub open spec fn voiced_in(i: IdView, name: CName, l: Locale) -> bool {
    match id_key(i) {
        Key::Both(BothKey(n, ll, _)) => n == name && ll == l,
        _ => false,
    }
}

/// Where every id of a name exists per spoken locale and gender, a lookup
/// in a locale the name has asks for a gender when none is given, and
/// finds the id of that gender when there is one; in any other case the
/// locale is said to be missing.
pub proof fn law_dual_voiced_name(s: Seq<IdView>, name: CName, spoken: SpokenLocale, gender: Option<PlayerGender>)
    requires
        any_named(s, name),
        forall|j: int| 0 <= j < s.len() && id_name(#[trigger] s[j]) == name ==> id_key(s[j]) is Both,
    ensures
        ({
            let in_locale = exists|j: int| 0 <= j < s.len() && voiced_in(#[trigger] s[j], name, spoken.0);
            let found = match gender {
                Some(g) => exists|j: int| 0 <= j < s.len() && id_key(#[trigger] s[j]) == Key::Both(BothKey(name, spoken.0, g)),
                None => false,
            };
            if in_locale && gender is None {
                lookup(s, name, spoken, gender) == Err::<IdView, RegistryError>(RegistryError::RequireGender { cname: name })
            } else if found {
                lookup(s, name, spoken, gender) matches Ok(v)
                    && id_key(v) == Key::Both(BothKey(name, spoken.0, gender.unwrap()))
            } else {
                lookup(s, name, spoken, gender) == Err::<IdView, RegistryError>(
                    RegistryError::MissingSpokenLocale { cname: name, locale: spoken },
                )
            }
        }),
{
    let k = choose|k: int| 0 <= k < s.len() && id_name(#[trigger] s[k]) == name;
    let in_locale = exists|j: int| 0 <= j < s.len() && voiced_in(#[trigger] s[j], name, spoken.0);
    let found = match gender {
        Some(g) => exists|j: int| 0 <= j < s.len() && id_key(#[trigger] s[j]) == Key::Both(BothKey(name, spoken.0, g)),
        None => false,
    };
    if in_locale && gender is None {
        let j = choose|j: int| 0 <= j < s.len() && voiced_in(#[trigger] s[j], name, spoken.0);
        lemma_first_decider(s, name, spoken, gender, j);
        let i = choose|i: int| #[trigger] first_decider(s, name, spoken, gender, i);
        assert(id_name(s[i]) == name);
        lemma_lookup_at(s, name, spoken, gender, i);
    } else if found {
        let g = gender.unwrap();
        let j = choose|j: int| 0 <= j < s.len() && id_key(#[trigger] s[j]) == Key::Both(BothKey(name, spoken.0, g));
        lemma_first_decider(s, name, spoken, gender, j);
        let i = choose|i: int| #[trigger] first_decider(s, name, spoken, gender, i);
        assert(id_name(s[i]) == name);
        lemma_lookup_at(s, name, spoken, gender, i);
    } else {
        assert forall|j: int| 0 <= j < s.len() implies !decides(#[trigger] s[j], name, spoken, gender) by {
            if id_name(s[j]) == name {
                assert(id_key(s[j]) is Both);
                if decides(s[j], name, spoken, gender) {
                    if gender is None {
                        assert(in_locale);
                    } else {
                        assert(found);
                    }
                }
            }
        }
        assert(id_key(s[k]) is Both);
        assert(localized(s[k], name));
        assert(!exists|i: int| #[trigger] first_decider(s, name, spoken, gender, i));
    }
}

/// Where some id settles a lookup, a first one does.
pub proof fn lemma_first_decider(s: Seq<IdView>, name: CName, spoken: SpokenLocale, gender: Option<PlayerGender>, k: int)
    requires
        0 <= k < s.len(),
        decides(s[k], name, spoken, gender),
    ensures
        exists|i: int| #[trigger] first_decider(s, name, spoken, gender, i),
    decreases k,
{
    if forall|j: int| 0 <= j < k ==> !decides(#[trigger] s[j], name, spoken, gender) {
        assert(first_decider(s, name, spoken, gender, k));
    } else {
        let j = choose|j: int| 0 <= j < k && decides(#[trigger] s[j], name, spoken, gender);
        lemma_first_decider(s, name, spoken, gender, j);
    }
}

/// Once an id is stored, whether it was new or not, the registry holds it,
/// and audio exists for its name.
pub proof fn law_stored_id_exists(s: Seq<IdView>, v: IdView)
    ensures
        ({
            let t = if s.contains(v) { s } else { s.push(v) };
            t.contains(v) && any_named(t, id_name(v))
        }),
{
    let t = if s.contains(v) { s } else { s.push(v) };
    if s.contains(v) {
        let j = choose|j: int| 0 <= j < s.len() && s[j] == v;
        assert(id_name(t[j]) == id_name(v));
    } else {
        assert(t[s.len() as int] == v);
    }
}

} // verus!
