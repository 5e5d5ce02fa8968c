//! Subtitles of voices, stored per key and packaged per written locale for
//! the game's localization.

use vstd::prelude::*;

use crate::bank::error::{Error, ValidationError};
use crate::bank::key::{BothKey, LocaleKey};
use crate::manifest::{Locale, PlayerGender, WrittenLocale};
use crate::names::CName;

verus! {

/// A subtitle line.
pub struct DialogLine {
    pub msg: String,
}

/// An entry of a localization package: the name, then the line for a
/// female and for a male player character.
pub type PackageEntry = (CName, (String, String));

pub open spec fn entry_view(e: PackageEntry) -> (CName, (Seq<char>, Seq<char>)) {
    (e.0, (e.1.0@, e.1.1@))
}

pub open spec fn package_view(v: Seq<PackageEntry>) -> Seq<(CName, (Seq<char>, Seq<char>))> {
    v.map_values(|e: PackageEntry| entry_view(e))
}

/// The lines of voices that exist per locale, by key; no key twice.
pub struct LocaleSubtitles {
    entries: Vec<(LocaleKey, DialogLine)>,
}

/// The lines of voices that exist per locale and gender, by key; no key
/// twice.
pub struct BothSubtitles {
    entries: Vec<(BothKey, DialogLine)>,
}

impl View for LocaleSubtitles {
    type V = Seq<(LocaleKey, Seq<char>)>;

    closed spec fn view(&self) -> Seq<(LocaleKey, Seq<char>)> {
        self.entries@.map_values(|e: (LocaleKey, DialogLine)| (e.0, e.1.msg@))
    }
}

impl View for BothSubtitles {
    type V = Seq<(BothKey, Seq<char>)>;

    closed spec fn view(&self) -> Seq<(BothKey, Seq<char>)> {
        self.entries@.map_values(|e: (BothKey, DialogLine)| (e.0, e.1.msg@))
    }
}

pub open spec fn has_locale_key<T>(s: Seq<(LocaleKey, T)>, k: LocaleKey) -> bool {
    exists|i: int| 0 <= i < s.len() && (#[trigger] s[i]).0 == k
}

pub open spec fn has_both_key<T>(s: Seq<(BothKey, T)>, k: BothKey) -> bool {
    exists|i: int| 0 <= i < s.len() && (#[trigger] s[i]).0 == k
}

pub open spec fn distinct_locale_keys<T>(s: Seq<(LocaleKey, T)>) -> bool {
    forall|i: int, j: int| 0 <= i < j < s.len() ==> (#[trigger] s[i]).0 != (#[trigger] s[j]).0
}

pub open spec fn distinct_both_keys<T>(s: Seq<(BothKey, T)>) -> bool {
    forall|i: int, j: int| 0 <= i < j < s.len() ==> (#[trigger] s[i]).0 != (#[trigger] s[j]).0
}

/// The package of a locale: for each line in that locale, in order, its
/// name with the line for both genders.
pub open spec fn locale_package(s: Seq<(LocaleKey, Seq<char>)>, l: Locale) -> Seq<(CName, (Seq<char>, Seq<char>))>
    decreases s.len(),
{
    if s.len() == 0 {
        Seq::empty()
    } else {
        let r = locale_package(s.drop_last(), l);
        let x = s.last();
        if x.0.1 == l {
            r.push((x.0.0, (x.1, x.1)))
        } else {
            r
        }
    }
}

pub open spec fn other_gender(g: PlayerGender) -> PlayerGender {
    match g {
        PlayerGender::Female => PlayerGender::Male,
        PlayerGender::Male => PlayerGender::Female,
    }
}

/// The line stored under `k`.
pub open spec fn line_of(s: Seq<(BothKey, Seq<char>)>, k: BothKey) -> Seq<char> {
    let i = choose|i: int| 0 <= i < s.len() && (#[trigger] s[i]).0 == k;
    s[i].1
}

/// Every line exists for both genders.
pub open spec fn genders_complete(s: Seq<(BothKey, Seq<char>)>) -> bool {
    forall|i: int| 0 <= i < s.len() ==> has_both_key(s, BothKey((#[trigger] s[i]).0.0, s[i].0.1, other_gender(s[i].0.2)))
}

/// The package entry of the line `x` of `all`: its name, with the female
/// and the male line.
pub open spec fn both_entry(all: Seq<(BothKey, Seq<char>)>, x: (BothKey, Seq<char>)) -> (CName, (Seq<char>, Seq<char>)) {
    let other = line_of(all, BothKey(x.0.0, x.0.1, other_gender(x.0.2)));
    if x.0.2 == PlayerGender::Female {
        (x.0.0, (x.1, other))
    } else {
        (x.0.0, (other, x.1))
    }
}

/// The package of a locale: for each line of `s` in that locale, in order,
/// its entry, with the other gender's line taken from `all`.
pub open spec fn both_package(all: Seq<(BothKey, Seq<char>)>, s: Seq<(BothKey, Seq<char>)>, l: Locale) -> Seq<(CName, (Seq<char>, Seq<char>))>
    decreases s.len(),
{
    if s.len() == 0 {
        Seq::empty()
    } else {
        let r = both_package(all, s.drop_last(), l);
        let x = s.last();
        if x.0.1 == l {
            r.push(both_entry(all, x))
        } else {
            r
        }
    }
}

fn copy_string(s: &String) -> (r: String)
    ensures
        r@ == s@,
{
    s.clone()
}

impl LocaleSubtitles {
    #[verifier::type_invariant]
    spec fn inv(&self) -> bool {
        distinct_locale_keys(self@)
    }

    pub fn new() -> (r: LocaleSubtitles)
        ensures
            r@ == Seq::<(LocaleKey, Seq<char>)>::empty(),
    {
        let r = LocaleSubtitles { entries: Vec::new() };
        assert(r@ =~= Seq::<(LocaleKey, Seq<char>)>::empty());
        r
    }

    fn position(&self, key: LocaleKey) -> (r: Option<usize>)
        ensures
            match r {
                None => !has_locale_key(self@, key),
                Some(i) => i < self@.len() && self@[i as int].0 == key,
            },
    {
        let mut i: usize = 0;
        while i < self.entries.len()
            invariant
                i <= self.entries@.len(),
                self@.len() == self.entries@.len(),
                forall|j: int| 0 <= j < i ==> (#[trigger] self@[j]).0 != key,
            decreases self.entries@.len() - i,
        {
            if self.entries[i].0 == key {
                assert(self@[i as int].0 == key);
                return Some(i);
            }
            i = i + 1;
        }
        None
    }

    /// Stores a line under `key`; a key stored already is refused.
    pub fn ensure_store_subtitle(&mut self, key: LocaleKey, value: DialogLine) -> (r: Result<(), Error>)
        ensures
            r is Ok <==> !has_locale_key(old(self)@, key),
            r is Ok ==> final(self)@ == old(self)@.push((key, value.msg@)),
            r is Err ==> final(self)@ == old(self)@
                && r == Err::<(), Error>(Error::Validation { source: ValidationError::CannotStoreSubtitle }),
    {
        proof {
            use_type_invariant(&*self);
        }
        if self.position(key).is_some() {
            return Err(Error::Validation { source: ValidationError::CannotStoreSubtitle });
        }
        let ghost prev = self@;
        let ghost m = value.msg@;
        let mut entries = Vec::new();
        std::mem::swap(&mut entries, &mut self.entries);
        entries.push((key, value));
        proof {
            let n = entries@.map_values(|e: (LocaleKey, DialogLine)| (e.0, e.1.msg@));
            assert(n =~= prev.push((key, m)));
            assert forall|a: int, b: int| 0 <= a < b < n.len() implies (#[trigger] n[a]).0 != (#[trigger] n[b]).0 by {
                if b == prev.len() {
                    assert(n[a] == prev[a]);
                } else {
                    assert(n[a] == prev[a] && n[b] == prev[b]);
                }
            }
        }
        self.entries = entries;
        Ok(())
    }

    /// The localization package of a locale.
    pub fn package(&self, locale: Locale) -> (r: Vec<PackageEntry>)
        ensures
            package_view(r@) == locale_package(self@, locale),
    {
        let ghost s = self@;
        let mut out: Vec<PackageEntry> = Vec::new();
        let mut i: usize = 0;
        while i < self.entries.len()
            invariant
                i <= self.entries@.len(),
                s == self@,
                s.len() == self.entries@.len(),
                package_view(out@) == locale_package(s.take(i as int), locale),
            decreases self.entries@.len() - i,
        {
            let ghost t = s.take(i as int + 1);
            assert(t.drop_last() =~= s.take(i as int));
            assert(t.last() == s[i as int]);
            let (k, v) = (&self.entries[i].0, &self.entries[i].1);
            if k.1 == locale {
                let ghost before = out@;
                out.push((k.0, (copy_string(&v.msg), copy_string(&v.msg))));
                assert(package_view(out@) =~= package_view(before).push((k.0, (s[i as int].1, s[i as int].1))));
            }
            i = i + 1;
        }
        assert(s.take(s.len() as int) =~= s);
        out
    }

    /// The locales that some line is in, each once, in order of first line.
    pub fn locales(&self) -> (r: Vec<Locale>)
        ensures
            r@.no_duplicates(),
            forall|l: Locale| #[trigger] r@.contains(l) <==> exists|i: int| 0 <= i < self@.len() && (#[trigger] self@[i]).0.1 == l,
    {
        let mut out: Vec<Locale> = Vec::new();
        let mut i: usize = 0;
        while i < self.entries.len()
            invariant
                i <= self.entries@.len(),
                self@.len() == self.entries@.len(),
                out@.no_duplicates(),
                forall|l: Locale| #[trigger] out@.contains(l) <==> exists|j: int| 0 <= j < i && (#[trigger] self@[j]).0.1 == l,
            decreases self.entries@.len() - i,
        {
            let l = self.entries[i].0.1;
            assert(self@[i as int].0.1 == l);
            push_unique(&mut out, l);
            i = i + 1;
        }
        out
    }
}

/// In lines with distinct keys, the line of a key is the one at its index.
pub proof fn lemma_line_of(s: Seq<(BothKey, Seq<char>)>, k: BothKey, i: int)
    requires
        distinct_both_keys(s),
        0 <= i < s.len(),
        s[i].0 == k,
    ensures
        line_of(s, k) == s[i].1,
{
    let j = choose|j: int| 0 <= j < s.len() && (#[trigger] s[j]).0 == k;
    if j != i {
        assert(s[j].0 == s[i].0);
    }
}

impl BothSubtitles {
    #[verifier::type_invariant]
    spec fn inv(&self) -> bool {
        distinct_both_keys(self@)
    }

    pub fn new() -> (r: BothSubtitles)
        ensures
            r@ == Seq::<(BothKey, Seq<char>)>::empty(),
    {
        let r = BothSubtitles { entries: Vec::new() };
        assert(r@ =~= Seq::<(BothKey, Seq<char>)>::empty());
        r
    }

    fn position(&self, key: BothKey) -> (r: Option<usize>)
        ensures
            match r {
                None => !has_both_key(self@, key),
                Some(i) => i < self@.len() && self@[i as int].0 == key,
            },
    {
        let mut i: usize = 0;
        while i < self.entries.len()
            invariant
                i <= self.entries@.len(),
                self@.len() == self.entries@.len(),
                forall|j: int| 0 <= j < i ==> (#[trigger] self@[j]).0 != key,
            decreases self.entries@.len() - i,
        {
            if self.entries[i].0 == key {
                assert(self@[i as int].0 == key);
                return Some(i);
            }
            i = i + 1;
        }
        None
    }

    /// Stores a line under `key`; a key stored already is refused.
    pub fn ensure_store_subtitle(&mut self, key: BothKey, value: DialogLine) -> (r: Result<(), Error>)
        ensures
            r is Ok <==> !has_both_key(old(self)@, key),
            r is Ok ==> final(self)@ == old(self)@.push((key, value.msg@)),
            r is Err ==> final(self)@ == old(self)@
                && r == Err::<(), Error>(Error::Validation { source: ValidationError::CannotStoreSubtitle }),
    {
        proof {
            use_type_invariant(&*self);
        }
        if self.position(key).is_some() {
            return Err(Error::Validation { source: ValidationError::CannotStoreSubtitle });
        }
        let ghost prev = self@;
        let ghost m = value.msg@;
        let mut entries = Vec::new();
        std::mem::swap(&mut entries, &mut self.entries);
        entries.push((key, value));
        proof {
            let n = entries@.map_values(|e: (BothKey, DialogLine)| (e.0, e.1.msg@));
            assert(n =~= prev.push((key, m)));
            assert forall|a: int, b: int| 0 <= a < b < n.len() implies (#[trigger] n[a]).0 != (#[trigger] n[b]).0 by {
                if b == prev.len() {
                    assert(n[a] == prev[a]);
                } else {
                    assert(n[a] == prev[a] && n[b] == prev[b]);
                }
            }
        }
        self.entries = entries;
        Ok(())
    }

    /// The localization package of a locale: each line in that locale with
    /// the line of the other gender. Every line must exist for both
    /// genders.
    pub fn package(&self, locale: Locale) -> (r: Vec<PackageEntry>)
        requires
            genders_complete(self@),
        ensures
            package_view(r@) == both_package(self@, self@, locale),
    {
        proof {
            use_type_invariant(self);
        }
        let ghost s = self@;
        let mut out: Vec<PackageEntry> = Vec::new();
        let mut i: usize = 0;
        while i < self.entries.len()
            invariant
                i <= self.entries@.len(),
                s == self@,
                s.len() == self.entries@.len(),
                distinct_both_keys(s),
                genders_complete(s),
                package_view(out@) == both_package(s, s.take(i as int), locale),
            decreases self.entries@.len() - i,
        {
            let ghost t = s.take(i as int + 1);
            assert(t.drop_last() =~= s.take(i as int));
            assert(t.last() == s[i as int]);
            let k = self.entries[i].0;
            if k.1 == locale {
                let other = BothKey(k.0, k.1, match k.2 {
                    PlayerGender::Female => PlayerGender::Male,
                    PlayerGender::Male => PlayerGender::Female,
                });
                assert(has_both_key(s, BothKey(s[i as int].0.0, s[i as int].0.1, other_gender(s[i as int].0.2))));
                match self.position(other) {
                    Some(j) => {
                        proof {
                            lemma_line_of(s, other, j as int);
                        }
                        let mine = copy_string(&self.entries[i].1.msg);
                        let theirs = copy_string(&self.entries[j].1.msg);
                        let ghost before = out@;
                        let e = match k.2 {
                            PlayerGender::Female => (k.0, (mine, theirs)),
                            PlayerGender::Male => (k.0, (theirs, mine)),
                        };
                        out.push(e);
                        assert(package_view(out@) =~= package_view(before).push(both_entry(s, s[i as int])));
                    },
                    None => {
                        proof {
                            assert(false);
                        }
                    },
                }
            }
            i = i + 1;
        }
        assert(s.take(s.len() as int) =~= s);
        out
    }

    /// The locales that some line is in, each once, in order of first line.
    pub fn locales(&self) -> (r: Vec<Locale>)
        ensures
            r@.no_duplicates(),
            forall|l: Locale| #[trigger] r@.contains(l) <==> exists|i: int| 0 <= i < self@.len() && (#[trigger] self@[i]).0.1 == l,
    {
        let mut out: Vec<Locale> = Vec::new();
        let mut i: usize = 0;
        while i < self.entries.len()
            invariant
                i <= self.entries@.len(),
                self@.len() == self.entries@.len(),
                out@.no_duplicates(),
                forall|l: Locale| #[trigger] out@.contains(l) <==> exists|j: int| 0 <= j < i && (#[trigger] self@[j]).0.1 == l,
            decreases self.entries@.len() - i,
        {
            let l = self.entries[i].0.1;
            assert(self@[i as int].0.1 == l);
            push_unique(&mut out, l);
            i = i + 1;
        }
        out
    }
}

/// The subtitles of every voice.
pub struct Subtitles {
    pub single: LocaleSubtitles,
    pub dual: BothSubtitles,
}

impl Subtitles {
    pub fn new() -> (r: Subtitles)
        ensures
            r.single@ == Seq::<(LocaleKey, Seq<char>)>::empty(),
            r.dual@ == Seq::<(BothKey, Seq<char>)>::empty(),
    {
        Subtitles { single: LocaleSubtitles::new(), dual: BothSubtitles::new() }
    }

    /// Every subtitle of a written locale, as raw entries of a localization
    /// package: first those of voices per locale, then those per locale and
    /// gender.
    pub fn subtitles(&self, locale: WrittenLocale) -> (r: Vec<PackageEntry>)
        requires
            genders_complete(self.dual@),
        ensures
            package_view(r@) == locale_package(self.single@, locale.0) + both_package(self.dual@, self.dual@, locale.0),
    {
        let mut a = self.single.package(locale.0);
        let mut b = self.dual.package(locale.0);
        let ghost va = package_view(a@);
        let ghost vb = package_view(b@);
        a.append(&mut b);
        assert(package_view(a@) =~= va + vb);
        a
    }

    /// Every locale that some subtitle is in, each once.
    pub fn locales(&self) -> (r: Vec<Locale>)
        ensures
            r@.no_duplicates(),
            forall|l: Locale| r@.contains(l) <==> (
                (exists|i: int| 0 <= i < self.single@.len() && (#[trigger] self.single@[i]).0.1 == l)
                || (exists|i: int| 0 <= i < self.dual@.len() && (#[trigger] self.dual@[i]).0.1 == l)),
    {
        let mut out = self.single.locales();
        let more = self.dual.locales();
        let ghost first = out@;
        let mut j: usize = 0;
        while j < more.len()
            invariant
                j <= more@.len(),
                out@.no_duplicates(),
                forall|l: Locale| first.contains(l) <==> exists|i: int| 0 <= i < self.single@.len() && (#[trigger] self.single@[i]).0.1 == l,
                forall|l: Locale| more@.contains(l) <==> exists|i: int| 0 <= i < self.dual@.len() && (#[trigger] self.dual@[i]).0.1 == l,
                forall|l: Locale| #[trigger] out@.contains(l) <==> (first.contains(l) || more@.take(j as int).contains(l)),
            decreases more@.len() - j,
        {
            let ghost before = out@;
            push_unique(&mut out, more[j]);
            proof {
                assert(more@.take(j as int + 1) =~= more@.take(j as int).push(more@[j as int]));
                assert forall|l: Locale| #[trigger] out@.contains(l) <==> (first.contains(l) || more@.take(j as int + 1).contains(l)) by {
                    if l == more@[j as int] {
                        assert(more@.take(j as int + 1)[j as int] == l);
                    }
                    if more@.take(j as int + 1).contains(l) && l != more@[j as int] {
                        let t = more@.take(j as int + 1);
                        let k = choose|k: int| 0 <= k < t.len() && t[k] == l;
                        assert(more@.take(j as int)[k] == l);
                    }
                    if more@.take(j as int).contains(l) {
                        let t = more@.take(j as int);
                        let k = choose|k: int| 0 <= k < t.len() && t[k] == l;
                        assert(more@.take(j as int + 1)[k] == l);
                    }
                }
            }
            j = j + 1;
        }
        proof {
            assert(more@.take(more@.len() as int) =~= more@);
        }
        out
    }
}

/// Adds `l` unless it is there already.
pub(crate) fn push_unique(out: &mut Vec<Locale>, l: Locale)
    requires
        old(out)@.no_duplicates(),
    ensures
        final(out)@.no_duplicates(),
        forall|x: Locale| #[trigger] final(out)@.contains(x) <==> (old(out)@.contains(x) || x == l),
{
    let mut k: usize = 0;
    while k < out.len()
        invariant
            k <= out@.len(),
            out@ == old(out)@,
            out@.no_duplicates(),
            forall|a: int| 0 <= a < k ==> out@[a] != l,
        decreases out@.len() - k,
    {
        if out[k] == l {
            assert(out@[k as int] == l);
            assert forall|x: Locale| #[trigger] out@.contains(x) <==> (old(out)@.contains(x) || x == l) by {
                if x == l {
                    assert(out@[k as int] == x);
                }
            }
            return;
        }
        k = k + 1;
    }
    let ghost before = out@;
    out.push(l);
    assert forall|a: int, b: int| 0 <= a < b < out@.len() implies out@[a] != out@[b] by {
        if b == before.len() {
            assert(out@[a] == before[a]);
        } else {
            assert(out@[a] == before[a] && out@[b] == before[b]);
        }
    }
    assert forall|x: Locale| #[trigger] out@.contains(x) <==> (before.contains(x) || x == l) by {
        if out@.contains(x) {
            let a = choose|a: int| 0 <= a < out@.len() && out@[a] == x;
            if a < before.len() {
                assert(before[a] == x);
            }
        }
        if before.contains(x) {
            let a = choose|a: int| 0 <= a < before.len() && before[a] == x;
            assert(out@[a] == x);
        }
        if x == l {
            assert(out@[before.len() as int] == x);
        }
    }
}

/// Every line of a locale is in that locale's package, with its line for
/// both genders; every entry of the package is such a line.
#[verifier::spinoff_prover]
pub proof fn law_locale_package_complete(s: Seq<(LocaleKey, Seq<char>)>, l: Locale)
    ensures
        forall|i: int| 0 <= i < s.len() && (#[trigger] s[i]).0.1 == l
            ==> locale_package(s, l).contains((s[i].0.0, (s[i].1, s[i].1))),
        forall|k: int| 0 <= k < locale_package(s, l).len() ==> exists|i: int| 0 <= i < s.len()
            && (#[trigger] s[i]).0.1 == l && #[trigger] locale_package(s, l)[k] == (s[i].0.0, (s[i].1, s[i].1)),
    decreases s.len(),
{
    if s.len() > 0 {
        let d = s.drop_last();
        law_locale_package_complete(d, l);
        let r = locale_package(d, l);
        let p = locale_package(s, l);
        assert forall|i: int| 0 <= i < s.len() && (#[trigger] s[i]).0.1 == l
            implies p.contains((s[i].0.0, (s[i].1, s[i].1))) by {
            if i < d.len() {
                assert(d[i] == s[i]);
                assert(r.contains((d[i].0.0, (d[i].1, d[i].1))));
                let k = choose|k: int| 0 <= k < r.len() && r[k] == (d[i].0.0, (d[i].1, d[i].1));
                assert(p[k] == r[k]);
            } else {
                assert(p[r.len() as int] == (s[i].0.0, (s[i].1, s[i].1)));
            }
        }
        assert forall|k: int| 0 <= k < p.len() implies exists|i: int| 0 <= i < s.len()
            && (#[trigger] s[i]).0.1 == l && #[trigger] p[k] == (s[i].0.0, (s[i].1, s[i].1)) by {
            if k < r.len() {
                assert(p[k] == r[k]);
                let i = choose|i: int| 0 <= i < d.len() && (#[trigger] d[i]).0.1 == l && r[k] == (d[i].0.0, (d[i].1, d[i].1));
                assert(d[i] == s[i]);
            } else {
                let i = s.len() - 1;
                assert(s[i] == s.last());
                assert(s.last().0.1 == l);
                assert(p == r.push((s.last().0.0, (s.last().1, s.last().1))));
                assert(p[k] == (s[i].0.0, (s[i].1, s[i].1)));
            }
        }
    }
}

/// Every line of a locale, for either gender, is in that locale's package
/// with its line for the other gender.
pub proof fn law_both_package_complete(all: Seq<(BothKey, Seq<char>)>, s: Seq<(BothKey, Seq<char>)>, l: Locale)
    ensures
        forall|i: int| 0 <= i < s.len() && (#[trigger] s[i]).0.1 == l
            ==> both_package(all, s, l).contains(both_entry(all, s[i])),
    decreases s.len(),
{
    if s.len() > 0 {
        let d = s.drop_last();
        law_both_package_complete(all, d, l);
        let r = both_package(all, d, l);
        let p = both_package(all, s, l);
        assert forall|i: int| 0 <= i < s.len() && (#[trigger] s[i]).0.1 == l
            implies p.contains(both_entry(all, s[i])) by {
            if i < d.len() {
                assert(d[i] == s[i]);
                assert(r.contains(both_entry(all, d[i])));
                let k = choose|k: int| 0 <= k < r.len() && r[k] == both_entry(all, d[i]);
                assert(p[k] == r[k]);
            } else {
                assert(p[r.len() as int] == both_entry(all, s[i]));
            }
        }
    }
}

} // verus!
