//! Registration of the audio that mods declare in their manifests: each
//! entry is checked and stored, a refused entry is skipped with one error,
//! and what an entry stored before it was refused stays.

use vstd::prelude::*;

use crate::bank::ensure::{
    checked_keys, contains_text, ensure_manifest_no_duplicates, ensure_no_duplicate_accross_depots, first_repeat,
    make_id, spec_make_id, texts, AudioUsage, ManifestKeys, ModFolder,
};
use crate::bank::error::{errors_view, Error, ErrorView, ValidationError};
use crate::bank::id::{id_key, id_name, IdView};
use crate::bank::key::{key_name, BothKey, GenderKey, Key, LocaleKey, UniqueKey};
use crate::bank::registry::{
    any_named, ensure_store_id, law_dual_voiced_name, law_gendered_name, law_localized_name, law_unique_name_found,
    lookup, Banks, Ids, KeyStore,
};
use crate::bank::subtitles::{has_both_key, has_locale_key, DialogLine};
use crate::manifest::{Locale, PlayerGender, Source, SpokenLocale};
use crate::names::CName;

verus! {

/// Which audio of an entry a line is: the only one, or the one for a
/// player gender, a spoken locale, or both.
#[derive(Debug, Clone, Copy, PartialEq, Eq, Structural)]
pub enum LineKey {
    Unique,
    Gender(PlayerGender),
    Single(Locale),
    Dual(Locale, PlayerGender),
}

/// One audio file of an entry, as read from its mod: the path the manifest
/// gives, the file it names within the mod's folder, whether the file
/// holds valid audio (inside the folder, decodable, with valid settings and
/// captions), whether the manifest gives it settings, and its subtitle.
pub struct AudioLine {
    pub key: LineKey,
    pub path: String,
    pub file: String,
    pub valid: bool,
    pub has_settings: bool,
    pub subtitle: Option<String>,
}

/// An audio line, its texts as sequences of characters.
pub struct AudioLineView {
    pub key: LineKey,
    pub path: Seq<char>,
    pub file: Seq<char>,
    pub valid: bool,
    pub has_settings: bool,
    pub subtitle: Option<Seq<char>>,
}

impl View for AudioLine {
    type V = AudioLineView;

    open spec fn view(&self) -> AudioLineView {
        AudioLineView {
            key: self.key,
            path: self.path@,
            file: self.file@,
            valid: self.valid,
            has_settings: self.has_settings,
            subtitle: match self.subtitle {
                Some(s) => Some(s@),
                None => None,
            },
        }
    }
}

/// An entry of a manifest section: its key, the name that key stands for,
/// whether the game's name pool held the key before any mod was loaded,
/// how its audio is loaded, and its audio lines.
pub struct ManifestEntry {
    pub key: String,
    pub name: CName,
    pub in_game_pool: bool,
    pub usage: AudioUsage,
    pub lines: Vec<AudioLine>,
}

/// A manifest entry, its texts as sequences of characters.
pub struct EntryView {
    pub key: Seq<char>,
    pub name: CName,
    pub in_game_pool: bool,
    pub usage: AudioUsage,
    pub lines: Seq<AudioLineView>,
}

pub open spec fn lines_view(v: Seq<AudioLine>) -> Seq<AudioLineView> {
    v.map_values(|x: AudioLine| x@)
}

impl View for ManifestEntry {
    type V = EntryView;

    open spec fn view(&self) -> EntryView {
        EntryView {
            key: self.key@,
            name: self.name,
            in_game_pool: self.in_game_pool,
            usage: self.usage,
            lines: lines_view(self.lines@),
        }
    }
}

/// The entries of a manifest, section by section, each in its order.
pub struct ManifestEntries {
    pub sfx: Vec<ManifestEntry>,
    pub onos: Vec<ManifestEntry>,
    pub voices: Vec<ManifestEntry>,
    pub music: Vec<ManifestEntry>,
    pub jingles: Vec<ManifestEntry>,
}

/// A manifest, its entries as views.
pub struct ManifestView {
    pub sfx: Seq<EntryView>,
    pub onos: Seq<EntryView>,
    pub voices: Seq<EntryView>,
    pub music: Seq<EntryView>,
    pub jingles: Seq<EntryView>,
}

pub open spec fn entries_view(v: Seq<ManifestEntry>) -> Seq<EntryView> {
    v.map_values(|x: ManifestEntry| x@)
}

impl View for ManifestEntries {
    type V = ManifestView;

    open spec fn view(&self) -> ManifestView {
        ManifestView {
            sfx: entries_view(self.sfx@),
            onos: entries_view(self.onos@),
            voices: entries_view(self.voices@),
            music: entries_view(self.music@),
            jingles: entries_view(self.jingles@),
        }
    }
}

/// What the banks hold, as the registration sees it.
pub struct LoadState {
    pub ids: Seq<IdView>,
    pub data: Seq<Key>,
    pub settings: Seq<Key>,
    pub pooled: Seq<Seq<char>>,
    pub single: Seq<(LocaleKey, Seq<char>)>,
    pub dual: Seq<(BothKey, Seq<char>)>,
}

pub open spec fn load_state(b: &Banks) -> LoadState {
    LoadState {
        ids: b.ids@,
        data: b.data@,
        settings: b.settings@,
        pooled: texts(b.pooled@),
        single: b.subtitles.single@,
        dual: b.subtitles.dual@,
    }
}

/// The error of a step, if it failed.
pub open spec fn fault(r: Result<(), Error>) -> Option<ErrorView> {
    match r {
        Ok(_) => None,
        Err(e) => Some(e@),
    }
}

/// The key of a line of the entry named `name`.
pub open spec fn line_key(name: CName, k: LineKey) -> Key {
    match k {
        LineKey::Unique => Key::Unique(UniqueKey(name)),
        LineKey::Gender(g) => Key::Gender(GenderKey(name, g)),
        LineKey::Single(l) => Key::Locale(LocaleKey(name, l)),
        LineKey::Dual(l, g) => Key::Both(BothKey(name, l, g)),
    }
}

/// Both keys are of the same kind.
pub open spec fn same_kind(a: Key, b: Key) -> bool {
    ||| a is Unique && b is Unique
    ||| a is Gender && b is Gender
    ||| a is Locale && b is Locale
    ||| a is Both && b is Both
}

/// Some stored id holds the name of `k` under another kind of key.
pub open spec fn conflicts(ids: Seq<IdView>, k: Key) -> bool {
    exists|j: int| 0 <= j < ids.len() && id_name(#[trigger] ids[j]) == key_name(k) && !same_kind(id_key(ids[j]), k)
}

/// The text holds a NUL character, so it cannot be made a name.
pub open spec fn has_nul(s: Seq<char>) -> bool {
    s.contains('\0')
}

/// Music and jingles check their audio before their key, and are always
/// streamed.
pub open spec fn checks_audio_first(section: Source) -> bool {
    section == Source::Music || section == Source::Jingle
}

pub open spec fn section_usage(section: Source, usage: AudioUsage) -> AudioUsage {
    if checks_audio_first(section) {
        AudioUsage::Streaming
    } else {
        usage
    }
}

/// The state once the line's subtitle is stored, if it has one under a
/// key with a locale; `None` when a subtitle is stored under that key
/// already.
pub open spec fn store_subtitle(st: LoadState, name: CName, x: AudioLineView) -> Option<LoadState> {
    match x.subtitle {
        None => Some(st),
        Some(m) => match x.key {
            LineKey::Single(l) => if has_locale_key(st.single, LocaleKey(name, l)) {
                None
            } else {
                Some(LoadState { single: st.single.push((LocaleKey(name, l), m)), ..st })
            },
            LineKey::Dual(l, g) => if has_both_key(st.dual, BothKey(name, l, g)) {
                None
            } else {
                Some(LoadState { dual: st.dual.push((BothKey(name, l, g), m)), ..st })
            },
            _ => Some(st),
        },
    }
}

/// One line of the entry `e` of `section` registered: its subtitle is
/// stored, its audio must be valid, its name may not be held by another
/// kind of key, audio kept in memory stores its data under its key and
/// audio loaded on demand its settings, if any, and its id enters the
/// registry. The first refusal stops it.
pub open spec fn line_step(st: LoadState, section: Source, e: EntryView, x: AudioLineView) -> (LoadState, Option<ErrorView>) {
    match store_subtitle(st, e.name, x) {
        None => (st, Some(ErrorView::CannotStoreSubtitle)),
        Some(st1) => {
            let key = line_key(e.name, x.key);
            let usage = section_usage(section, e.usage);
            if !x.valid {
                (st1, Some(ErrorView::InvalidAudio(x.path)))
            } else if checks_audio_first(section) && has_nul(e.key) {
                (st1, Some(ErrorView::InvalidAudioId))
            } else if conflicts(st1.ids, key) {
                (st1, Some(ErrorView::ConflictingKey(e.key)))
            } else if usage == AudioUsage::InMemory && st1.data.contains(key) {
                (st1, Some(ErrorView::CannotStoreData(key, x.path)))
            } else if usage != AudioUsage::InMemory && x.has_settings && st1.settings.contains(key) {
                (st1, Some(ErrorView::CannotStoreSettings))
            } else {
                let st2 = if usage == AudioUsage::InMemory {
                    LoadState { data: st1.data.push(key), ..st1 }
                } else if x.has_settings {
                    LoadState { settings: st1.settings.push(key), ..st1 }
                } else {
                    st1
                };
                let id = spec_make_id(key, usage, section, x.file);
                if st2.ids.contains(id) {
                    (st2, Some(ErrorView::CannotStoreAgnosticId(id)))
                } else {
                    (LoadState { ids: st2.ids.push(id), ..st2 }, None)
                }
            }
        },
    }
}

/// The lines registered in order, up to the first refusal.
pub open spec fn line_steps(st: LoadState, section: Source, e: EntryView, xs: Seq<AudioLineView>) -> (LoadState, Option<ErrorView>)
    decreases xs.len(),
{
    if xs.len() == 0 {
        (st, None)
    } else {
        let (s1, f1) = line_steps(st, section, e, xs.drop_last());
        if f1 is Some {
            (s1, f1)
        } else {
            line_step(s1, section, e, xs.last())
        }
    }
}

/// One entry registered: its key may not be known to the game or added by
/// an earlier entry, nor hold a NUL character, then its lines are
/// registered; once they all are, its key joins the name pool.
pub open spec fn entry_step(st: LoadState, section: Source, e: EntryView) -> (LoadState, Option<ErrorView>) {
    if e.in_game_pool || st.pooled.contains(e.key) {
        (st, Some(ErrorView::NonUniqueKey(e.key)))
    } else if !checks_audio_first(section) && has_nul(e.key) {
        (st, Some(ErrorView::InvalidAudioId))
    } else {
        let (s1, f) = line_steps(st, section, e, e.lines);
        if f is Some {
            (s1, f)
        } else {
            (LoadState { pooled: s1.pooled.push(e.key), ..s1 }, None)
        }
    }
}

/// The entries of a section registered in order, each refused one skipped
/// with its error.
pub open spec fn entry_steps(st: LoadState, section: Source, es: Seq<EntryView>) -> (LoadState, Seq<ErrorView>)
    decreases es.len(),
{
    if es.len() == 0 {
        (st, Seq::empty())
    } else {
        let (s1, errs) = entry_steps(st, section, es.drop_last());
        let (s2, f) = entry_step(s1, section, es.last());
        (s2, match f {
            Some(x) => errs.push(x),
            None => errs,
        })
    }
}

/// Once a registration stopped, later lines change nothing.
proof fn lemma_line_steps_stop(st: LoadState, section: Source, e: EntryView, xs: Seq<AudioLineView>, k: int)
    requires
        0 <= k <= xs.len(),
        line_steps(st, section, e, xs.take(k)).1 is Some,
    ensures
        line_steps(st, section, e, xs) == line_steps(st, section, e, xs.take(k)),
    decreases xs.len(),
{
    if k == xs.len() {
        assert(xs.take(k) =~= xs);
    } else {
        let d = xs.drop_last();
        assert(d.take(k) =~= xs.take(k));
        lemma_line_steps_stop(st, section, e, d, k);
    }
}

/// Whether the text of `s` holds a NUL character.
fn has_nul_char(s: &String) -> (r: bool)
    ensures
        r == has_nul(s@),
{
    let t = s.as_str();
    let n = t.unicode_len();
    let mut i: usize = 0;
    while i < n
        invariant
            i <= n,
            n == t@.len(),
            t@ == s@,
            forall|j: int| 0 <= j < i ==> t@[j] != '\0',
        decreases n - i,
    {
        if t.get_char(i) == '\0' {
            assert(s@[i as int] == '\0');
            return true;
        }
        i = i + 1;
    }
    false
}

fn same_kind_exec(a: &Key, b: &Key) -> (r: bool)
    ensures
        r == same_kind(*a, *b),
{
    match (a, b) {
        (Key::Unique(_), Key::Unique(_)) => true,
        (Key::Gender(_), Key::Gender(_)) => true,
        (Key::Locale(_), Key::Locale(_)) => true,
        (Key::Both(_), Key::Both(_)) => true,
        _ => false,
    }
}

/// Whether some stored id holds the name of `k` under another kind of key.
fn conflicts_with(ids: &Ids, k: &Key) -> (r: bool)
    ensures
        r == conflicts(ids@, *k),
{
    let name = k.name();
    let mut i: usize = 0;
    while i < ids.len()
        invariant
            i <= ids@.len(),
            name == key_name(*k),
            forall|j: int| 0 <= j < i ==> !(id_name(#[trigger] ids@[j]) == key_name(*k) && !same_kind(id_key(ids@[j]), *k)),
        decreases ids@.len() - i,
    {
        let id = ids.get(i);
        if id.name() == name && !same_kind_exec(id.key(), k) {
            assert(id_name(ids@[i as int]) == key_name(*k));
            return true;
        }
        i = i + 1;
    }
    false
}

/// A key may not name audio twice: neither a key that the game's name pool
/// held before loading, nor one that an earlier entry added to it.
pub fn ensure_key_unique(in_game_pool: bool, pooled: &Vec<String>, key: &String) -> (r: Result<(), Error>)
    ensures
        r is Err <==> in_game_pool || texts(pooled@).contains(key@),
        r is Err ==> fault(r) == Some(ErrorView::NonUniqueKey(key@)),
{
    if in_game_pool || contains_text(pooled, key) {
        return Err(Error::Validation { source: ValidationError::NonUniqueKey { cname: key.clone() } });
    }
    Ok(())
}

/// The name of `key` may not be held by another kind of key already; `raw`
/// is the key as the manifest writes it.
pub fn ensure_key_no_conflict(key: &Key, raw: &String, ids: &Ids) -> (r: Result<(), Error>)
    ensures
        r is Err <==> conflicts(ids@, *key),
        r is Err ==> fault(r) == Some(ErrorView::ConflictingKey(raw@)),
{
    if conflicts_with(ids, key) {
        return Err(Error::Validation { source: ValidationError::ConflictingKey { cname: raw.clone() } });
    }
    Ok(())
}

/// Keeps audio data in memory under `key`, which may hold none yet; `path`
/// is the file it comes from.
pub fn ensure_store_data(key: Key, path: &String, store: &mut KeyStore) -> (r: Result<(), Error>)
    ensures
        r is Err <==> old(store)@.contains(key),
        r is Ok ==> final(store)@ == old(store)@.push(key),
        r is Err ==> final(store)@ == old(store)@ && fault(r) == Some(ErrorView::CannotStoreData(key, path@)),
{
    if !store.insert(key) {
        return Err(Error::Validation { source: ValidationError::CannotStoreData { key, path: path.clone() } });
    }
    Ok(())
}

/// Keeps audio settings under `key`, which may hold none yet.
pub fn ensure_store_settings(key: Key, store: &mut KeyStore) -> (r: Result<(), Error>)
    ensures
        r is Err <==> old(store)@.contains(key),
        r is Ok ==> final(store)@ == old(store)@.push(key),
        r is Err ==> final(store)@ == old(store)@ && fault(r) == Some(ErrorView::CannotStoreSettings),
{
    if !store.insert(key) {
        return Err(Error::Validation { source: ValidationError::CannotStoreSettings });
    }
    Ok(())
}

/// Registers one line of the entry `e` of `section`.
fn ensure_line(banks: &mut Banks, section: Source, e: &ManifestEntry, x: &AudioLine) -> (r: Result<(), Error>)
    ensures
        (load_state(final(banks)), fault(r)) == line_step(load_state(old(banks)), section, e@, x@),
{
    let name = e.name;
    let key = match x.key {
        LineKey::Unique => Key::Unique(UniqueKey(name)),
        LineKey::Gender(g) => Key::Gender(GenderKey(name, g)),
        LineKey::Single(l) => Key::Locale(LocaleKey(name, l)),
        LineKey::Dual(l, g) => Key::Both(BothKey(name, l, g)),
    };
    if let Some(m) = &x.subtitle {
        let stored = match x.key {
            LineKey::Single(l) => banks.subtitles.single.ensure_store_subtitle(LocaleKey(name, l), DialogLine { msg: m.clone() }),
            LineKey::Dual(l, g) => banks.subtitles.dual.ensure_store_subtitle(BothKey(name, l, g), DialogLine { msg: m.clone() }),
            _ => Ok(()),
        };
        if stored.is_err() {
            return Err(Error::Validation { source: ValidationError::CannotStoreSubtitle });
        }
    }
    if !x.valid {
        return Err(Error::Validation { source: ValidationError::InvalidAudio { path: x.path.clone() } });
    }
    let audio_first = section == Source::Music || section == Source::Jingle;
    let usage = if audio_first { AudioUsage::Streaming } else { e.usage };
    if audio_first && has_nul_char(&e.key) {
        return Err(Error::Validation { source: ValidationError::InvalidAudioID });
    }
    let r = ensure_key_no_conflict(&key, &e.key, &banks.ids);
    if r.is_err() {
        return r;
    }
    if usage == AudioUsage::InMemory {
        let r = ensure_store_data(key, &x.path, &mut banks.data);
        if r.is_err() {
            return r;
        }
    } else if x.has_settings {
        let r = ensure_store_settings(key, &mut banks.settings);
        if r.is_err() {
            return r;
        }
    }
    ensure_store_id(make_id(key, usage, section, x.file.clone()), &mut banks.ids)
}

/// Registers the lines of the entry `e` in order, up to the first refusal.
fn ensure_lines(banks: &mut Banks, section: Source, e: &ManifestEntry) -> (r: Result<(), Error>)
    ensures
        (load_state(final(banks)), fault(r)) == line_steps(load_state(old(banks)), section, e@, e@.lines),
{
    let ghost xs = e@.lines;
    let ghost st0 = load_state(banks);
    let mut i: usize = 0;
    while i < e.lines.len()
        invariant
            i <= e.lines@.len(),
            xs == e@.lines,
            xs.len() == e.lines@.len(),
            st0 == load_state(old(banks)),
            line_steps(st0, section, e@, xs.take(i as int)) == (load_state(banks), None::<ErrorView>),
        decreases e.lines@.len() - i,
    {
        let ghost st = load_state(banks);
        proof {
            assert(xs.take(i as int + 1).drop_last() =~= xs.take(i as int));
            assert(xs.take(i as int + 1).last() == xs[i as int]);
        }
        let x = &e.lines[i];
        assert(x@ == xs[i as int]);
        let r = ensure_line(banks, section, e, x);
        if r.is_err() {
            proof {
                lemma_line_steps_stop(st0, section, e@, xs, i as int + 1);
            }
            return r;
        }
        i = i + 1;
    }
    proof {
        assert(xs.take(xs.len() as int) =~= xs);
    }
    Ok(())
}

/// Registers one entry of `section`.
fn ensure_entry_of(banks: &mut Banks, section: Source, e: &ManifestEntry) -> (r: Result<(), Error>)
    ensures
        (load_state(final(banks)), fault(r)) == entry_step(load_state(old(banks)), section, e@),
{
    let r = ensure_key_unique(e.in_game_pool, &banks.pooled, &e.key);
    if r.is_err() {
        return r;
    }
    let audio_first = section == Source::Music || section == Source::Jingle;
    if !audio_first && has_nul_char(&e.key) {
        return Err(Error::Validation { source: ValidationError::InvalidAudioID });
    }
    let r = ensure_lines(banks, section, e);
    if r.is_err() {
        return r;
    }
    let ghost before = banks.pooled@;
    banks.pooled.push(e.key.clone());
    assert(texts(banks.pooled@) =~= texts(before).push(e.key@));
    Ok(())
}

/// Registers a sound effect: audio that exists once for its name.
pub fn ensure_sfx(banks: &mut Banks, entry: &ManifestEntry) -> (r: Result<(), Error>)
    ensures
        (load_state(final(banks)), fault(r)) == entry_step(load_state(old(banks)), Source::Sfx, entry@),
{
    ensure_entry_of(banks, Source::Sfx, entry)
}

/// Registers an onomatopoeia: audio per player gender.
pub fn ensure_ono(banks: &mut Banks, entry: &ManifestEntry) -> (r: Result<(), Error>)
    ensures
        (load_state(final(banks)), fault(r)) == entry_step(load_state(old(banks)), Source::Ono, entry@),
{
    ensure_entry_of(banks, Source::Ono, entry)
}

/// Registers a voice: audio per spoken locale, or per locale and player
/// gender, with the subtitle of each line when the voice has subtitles.
pub fn ensure_voice(banks: &mut Banks, entry: &ManifestEntry) -> (r: Result<(), Error>)
    ensures
        (load_state(final(banks)), fault(r)) == entry_step(load_state(old(banks)), Source::Voices, entry@),
{
    ensure_entry_of(banks, Source::Voices, entry)
}

/// Registers music: streamed audio that exists once for its name.
pub fn ensure_music(banks: &mut Banks, entry: &ManifestEntry) -> (r: Result<(), Error>)
    ensures
        (load_state(final(banks)), fault(r)) == entry_step(load_state(old(banks)), Source::Music, entry@),
{
    ensure_entry_of(banks, Source::Music, entry)
}

/// Registers a jingle: streamed audio that exists once for its name.
pub fn ensure_jingles(banks: &mut Banks, entry: &ManifestEntry) -> (r: Result<(), Error>)
    ensures
        (load_state(final(banks)), fault(r)) == entry_step(load_state(old(banks)), Source::Jingle, entry@),
{
    ensure_entry_of(banks, Source::Jingle, entry)
}

/// Registers the entries of a section in order; each refused entry adds
/// its error.
fn ensure_entries(banks: &mut Banks, section: Source, es: &Vec<ManifestEntry>, errors: &mut Vec<Error>)
    ensures
        load_state(final(banks)) == entry_steps(load_state(old(banks)), section, entries_view(es@)).0,
        errors_view(final(errors)@) == errors_view(old(errors)@) + entry_steps(load_state(old(banks)), section, entries_view(es@)).1,
{
    let ghost xs = entries_view(es@);
    let ghost st0 = load_state(banks);
    let ghost e0 = errors_view(errors@);
    let mut i: usize = 0;
    assert(errors_view(errors@) =~= e0 + Seq::<ErrorView>::empty());
    while i < es.len()
        invariant
            i <= es@.len(),
            xs == entries_view(es@),
            st0 == load_state(old(banks)),
            e0 == errors_view(old(errors)@),
            load_state(banks) == entry_steps(st0, section, xs.take(i as int)).0,
            errors_view(errors@) == e0 + entry_steps(st0, section, xs.take(i as int)).1,
        decreases es@.len() - i,
    {
        proof {
            assert(xs.take(i as int + 1).drop_last() =~= xs.take(i as int));
            assert(xs.take(i as int + 1).last() == xs[i as int]);
        }
        let ghost before = errors@;
        let ghost prior = entry_steps(st0, section, xs.take(i as int)).1;
        let r = ensure_entry_of(banks, section, &es[i]);
        match r {
            Ok(()) => {},
            Err(e) => {
                errors.push(e);
                assert(errors_view(errors@) =~= errors_view(before).push(e@));
                assert(e0 + prior.push(e@) =~= (e0 + prior).push(e@));
            },
        }
        i = i + 1;
    }
    assert(xs.take(xs.len() as int) =~= xs);
}

/// The keys of some entries, as the manifest writes them.
pub open spec fn entry_keys(es: Seq<EntryView>) -> Seq<Seq<char>> {
    es.map_values(|e: EntryView| e.key)
}

/// The keys that must be unique within a manifest, in order: those of the
/// sound effects, onomatopoeia, voices and music.
pub open spec fn manifest_keys(m: ManifestView) -> Seq<Seq<char>> {
    entry_keys(m.sfx) + entry_keys(m.onos) + entry_keys(m.voices) + entry_keys(m.music)
}

/// The first key that occurs a second time.
pub open spec fn repeated_key(s: Seq<Seq<char>>) -> Seq<char> {
    s[choose|j: int| first_repeat(s, j)]
}

/// A manifest registered: when it declares a key twice it is skipped with
/// one error naming the first key declared again; else its sections are
/// registered in order, and their errors collected in that order.
pub open spec fn register_spec(st: LoadState, m: ManifestView) -> (LoadState, Seq<ErrorView>) {
    if !manifest_keys(m).no_duplicates() {
        (st, seq![ErrorView::ConflictingKey(repeated_key(manifest_keys(m)))])
    } else {
        let (s1, e1) = entry_steps(st, Source::Sfx, m.sfx);
        let (s2, e2) = entry_steps(s1, Source::Ono, m.onos);
        let (s3, e3) = entry_steps(s2, Source::Voices, m.voices);
        let (s4, e4) = entry_steps(s3, Source::Music, m.music);
        let (s5, e5) = entry_steps(s4, Source::Jingle, m.jingles);
        (s5, e1 + e2 + e3 + e4 + e5)
    }
}

/// The first key declared again is at one index only.
pub proof fn lemma_first_repeat_unique(s: Seq<Seq<char>>, i: int, j: int)
    requires
        first_repeat(s, i),
        first_repeat(s, j),
    ensures
        i == j,
{
    if i < j {
        let k = choose|k: int| 0 <= k < i && s.take(i)[k] == s[i];
        assert(s.take(j)[k] == s.take(j)[i]);
    } else if j < i {
        let k = choose|k: int| 0 <= k < j && s.take(j)[k] == s[j];
        assert(s.take(i)[k] == s.take(i)[j]);
    }
}

/// The keys of some entries.
fn keys_of(es: &Vec<ManifestEntry>) -> (r: Vec<String>)
    ensures
        texts(r@) == entry_keys(entries_view(es@)),
{
    let mut r: Vec<String> = Vec::new();
    let mut i: usize = 0;
    while i < es.len()
        invariant
            i <= es@.len(),
            texts(r@) == entry_keys(entries_view(es@)).take(i as int),
        decreases es@.len() - i,
    {
        let ghost before = r@;
        let k = es[i].key.clone();
        r.push(k);
        assert(texts(r@) =~= texts(before).push(k@));
        assert(entry_keys(entries_view(es@)).take(i as int + 1) =~= entry_keys(entries_view(es@)).take(i as int).push(k@));
        i = i + 1;
    }
    assert(entry_keys(entries_view(es@)).take(es@.len() as int) =~= entry_keys(entries_view(es@)));
    r
}

/// Registers the entries of a manifest into the banks: a manifest that
/// declares a key twice is skipped whole, with one error; else its sound
/// effects, onomatopoeia, voices, music and jingles are registered in that
/// order, each refused entry skipped with its error. The errors are handed
/// back in order.
pub fn register_manifest(banks: &mut Banks, manifest: &ManifestEntries) -> (errors: Vec<Error>)
    ensures
        (load_state(final(banks)), errors_view(errors@)) == register_spec(load_state(old(banks)), manifest@),
{
    let keys = ManifestKeys {
        sfx: Some(keys_of(&manifest.sfx)),
        onos: Some(keys_of(&manifest.onos)),
        voices: Some(keys_of(&manifest.voices)),
        music: Some(keys_of(&manifest.music)),
        jingles: None,
    };
    assert(checked_keys(keys) =~= manifest_keys(manifest@));
    match ensure_manifest_no_duplicates(&keys) {
        Err(e) => {
            proof {
                let s = manifest_keys(manifest@);
                let j = choose|j: int| #[trigger] first_repeat(s, j) && s[j] == e@->ConflictingKey_0;
                let c = choose|c: int| first_repeat(s, c);
                lemma_first_repeat_unique(s, j, c);
            }
            let mut errors: Vec<Error> = Vec::new();
            errors.push(e);
            assert(errors_view(errors@) =~= seq![ErrorView::ConflictingKey(repeated_key(manifest_keys(manifest@)))]);
            errors
        },
        Ok(()) => {
            let mut errors: Vec<Error> = Vec::new();
            assert(errors_view(errors@) =~= Seq::<ErrorView>::empty());
            ensure_entries(banks, Source::Sfx, &manifest.sfx, &mut errors);
            ensure_entries(banks, Source::Ono, &manifest.onos, &mut errors);
            ensure_entries(banks, Source::Voices, &manifest.voices, &mut errors);
            ensure_entries(banks, Source::Music, &manifest.music, &mut errors);
            ensure_entries(banks, Source::Jingle, &manifest.jingles, &mut errors);
            errors
        },
    }
}

/// A mod folder with its manifests, each read and parsed into its entries.
pub struct LoadedMod {
    pub folder: ModFolder,
    pub manifests: Vec<ManifestEntries>,
}

/// A loaded mod: its folder's path and name as texts, and its manifests.
pub struct LoadedModView {
    pub path: Seq<char>,
    pub name: Seq<char>,
    pub manifests: Seq<ManifestView>,
}

pub open spec fn manifests_view(v: Seq<ManifestEntries>) -> Seq<ManifestView> {
    v.map_values(|m: ManifestEntries| m@)
}

impl View for LoadedMod {
    type V = LoadedModView;

    open spec fn view(&self) -> LoadedModView {
        LoadedModView { path: self.folder.path@, name: self.folder.name@, manifests: manifests_view(self.manifests@) }
    }
}

pub open spec fn mods_view(v: Seq<LoadedMod>) -> Seq<LoadedModView> {
    v.map_values(|m: LoadedMod| m@)
}

/// Some mod of `mods` has the folder name `name`.
pub open spec fn has_folder_name(mods: Seq<LoadedModView>, name: Seq<char>) -> bool {
    exists|i: int| 0 <= i < mods.len() && (#[trigger] mods[i]).name == name
}

/// The mods to load, in order: those of the mods depot, then those of the
/// legacy depot, except that when the mods depot exists a legacy mod whose
/// folder name an accepted mod has already is refused with an error.
pub open spec fn accept_mods(redmod_exists: bool, first: Seq<LoadedModView>, legacy: Seq<LoadedModView>) -> (Seq<LoadedModView>, Seq<ErrorView>)
    decreases legacy.len(),
{
    if legacy.len() == 0 {
        (first, Seq::empty())
    } else {
        let (acc, errs) = accept_mods(redmod_exists, first, legacy.drop_last());
        let m = legacy.last();
        if redmod_exists && has_folder_name(acc, m.name) {
            (acc, errs.push(ErrorView::DuplicateAcrossDepots(m.path)))
        } else {
            (acc.push(m), errs)
        }
    }
}

/// Manifests registered in order, their errors collected in order.
pub open spec fn register_manifests(st: LoadState, ms: Seq<ManifestView>) -> (LoadState, Seq<ErrorView>)
    decreases ms.len(),
{
    if ms.len() == 0 {
        (st, Seq::empty())
    } else {
        let (s1, e1) = register_manifests(st, ms.drop_last());
        let (s2, e2) = register_spec(s1, ms.last());
        (s2, e1 + e2)
    }
}

/// The manifests of mods registered in order, mod by mod.
pub open spec fn register_mods(st: LoadState, mods: Seq<LoadedModView>) -> (LoadState, Seq<ErrorView>)
    decreases mods.len(),
{
    if mods.len() == 0 {
        (st, Seq::empty())
    } else {
        let (s1, e1) = register_mods(st, mods.drop_last());
        let (s2, e2) = register_manifests(s1, mods.last().manifests);
        (s2, e1 + e2)
    }
}

/// Banks that hold nothing.
pub open spec fn empty_state() -> LoadState {
    LoadState {
        ids: Seq::empty(),
        data: Seq::empty(),
        settings: Seq::empty(),
        pooled: Seq::empty(),
        single: Seq::empty(),
        dual: Seq::empty(),
    }
}

/// Banks loaded from the mods of both depots: the mods accepted, then
/// their manifests registered into empty banks; the refusals of mods come
/// first among the errors.
pub open spec fn load_spec(redmod_exists: bool, redmod: Seq<LoadedModView>, legacy: Seq<LoadedModView>) -> (LoadState, Seq<ErrorView>) {
    let (mods, e0) = accept_mods(redmod_exists, redmod, legacy);
    let (st, e1) = register_mods(empty_state(), mods);
    (st, e0 + e1)
}

impl ModFolder {
    /// A copy of the folder.
    pub fn duplicate(&self) -> (r: ModFolder)
        ensures
            r.path@ == self.path@,
            r.name@ == self.name@,
    {
        ModFolder { path: self.path.clone(), name: self.name.clone() }
    }
}

/// Registers the manifests of a mod in order.
fn register_mod(banks: &mut Banks, m: &LoadedMod, errors: &mut Vec<Error>)
    ensures
        load_state(final(banks)) == register_manifests(load_state(old(banks)), m@.manifests).0,
        errors_view(final(errors)@) == errors_view(old(errors)@) + register_manifests(load_state(old(banks)), m@.manifests).1,
{
    let ghost ms = m@.manifests;
    let ghost st0 = load_state(banks);
    let ghost e0 = errors_view(errors@);
    assert(errors_view(errors@) =~= e0 + Seq::<ErrorView>::empty());
    let mut j: usize = 0;
    while j < m.manifests.len()
        invariant
            j <= m.manifests@.len(),
            ms == m@.manifests,
            st0 == load_state(old(banks)),
            e0 == errors_view(old(errors)@),
            load_state(banks) == register_manifests(st0, ms.take(j as int)).0,
            errors_view(errors@) == e0 + register_manifests(st0, ms.take(j as int)).1,
        decreases m.manifests@.len() - j,
    {
        proof {
            assert(ms.take(j as int + 1).drop_last() =~= ms.take(j as int));
            assert(ms.take(j as int + 1).last() == ms[j as int]);
        }
        let ghost before = errors@;
        let ghost prior = register_manifests(st0, ms.take(j as int)).1;
        let mut more = register_manifest(banks, &m.manifests[j]);
        let ghost added = errors_view(more@);
        errors.append(&mut more);
        assert(errors_view(errors@) =~= errors_view(before) + added);
        assert(e0 + (prior + added) =~= (e0 + prior) + added);
        j = j + 1;
    }
    assert(ms.take(ms.len() as int) =~= ms);
}

/// Loads the banks from the mods of both depots, each with its manifests
/// read and parsed: a mod of the legacy depot whose folder name a mod
/// accepted before has is refused when the mods depot exists; then every
/// manifest of the accepted mods is registered in order. The errors come
/// back in order: refused mods first, then refused manifests and entries.
pub fn load_banks(redmod_exists: bool, redmod: Vec<LoadedMod>, legacy: Vec<LoadedMod>) -> (r: (Banks, Vec<Error>))
    ensures
        (load_state(&r.0), errors_view(r.1@)) == load_spec(redmod_exists, mods_view(redmod@), mods_view(legacy@)),
{
    let ghost first = mods_view(redmod@);
    let ghost all_legacy = mods_view(legacy@);
    let mut errors: Vec<Error> = Vec::new();
    let mut folders: Vec<ModFolder> = Vec::new();
    let mut k: usize = 0;
    while k < redmod.len()
        invariant
            k <= redmod@.len(),
            first == mods_view(redmod@),
            folders@.len() == k,
            forall|a: int| 0 <= a < k ==> (#[trigger] folders@[a]).name@ == first[a].name,
        decreases redmod@.len() - k,
    {
        folders.push(redmod[k].folder.duplicate());
        k = k + 1;
    }
    let n = legacy.len();
    let mut mods = redmod;
    let mut rest = legacy;
    let mut i: usize = 0;
    assert(all_legacy.take(0) =~= Seq::<LoadedModView>::empty());
    assert(errors_view(errors@) =~= Seq::<ErrorView>::empty());
    assert(mods_view(rest@) =~= all_legacy.skip(0));
    while rest.len() > 0
        invariant
            i <= all_legacy.len(),
            all_legacy.len() == n,
            mods_view(rest@) == all_legacy.skip(i as int),
            rest@.len() == all_legacy.len() - i,
            (mods_view(mods@), errors_view(errors@)) == accept_mods(redmod_exists, first, all_legacy.take(i as int)),
            folders@.len() == mods@.len(),
            forall|a: int| 0 <= a < folders@.len() ==> (#[trigger] folders@[a]).name@ == mods_view(mods@)[a].name,
        decreases rest@.len(),
    {
        let ghost before_rest = rest@;
        let m = rest.remove(0);
        let ghost acc = mods_view(mods@);
        let ghost errs = errors_view(errors@);
        proof {
            assert(m@ == all_legacy[i as int]) by {
                assert(mods_view(before_rest)[0] == all_legacy.skip(i as int)[0]);
            }
            assert(mods_view(rest@) =~= all_legacy.skip(i as int + 1)) by {
                assert forall|a: int| 0 <= a < rest@.len() implies mods_view(rest@)[a] == all_legacy.skip(i as int + 1)[a] by {
                    assert(rest@[a] == before_rest[a + 1]);
                    assert(mods_view(before_rest)[a + 1] == all_legacy.skip(i as int)[a + 1]);
                }
            }
            assert(all_legacy.take(i as int + 1).drop_last() =~= all_legacy.take(i as int));
            assert(all_legacy.take(i as int + 1).last() == all_legacy[i as int]);
            assert(has_folder_name(acc, m@.name) == (exists|a: int| 0 <= a < folders@.len() && (#[trigger] folders@[a]).name@ == m.folder.name@)) by {
                if has_folder_name(acc, m@.name) {
                    let a = choose|a: int| 0 <= a < acc.len() && (#[trigger] acc[a]).name == m@.name;
                    assert(folders@[a].name@ == m.folder.name@);
                }
            }
        }
        match ensure_no_duplicate_accross_depots(redmod_exists, &m.folder, &folders) {
            Err(e) => {
                errors.push(e);
                assert(errors_view(errors@) =~= errs.push(ErrorView::DuplicateAcrossDepots(m@.path)));
            },
            Ok(()) => {
                folders.push(m.folder.duplicate());
                let ghost mv = m@;
                mods.push(m);
                assert(mods_view(mods@) =~= acc.push(mv));
            },
        }
        i = i + 1;
    }
    proof {
        assert(all_legacy.take(all_legacy.len() as int) =~= all_legacy);
    }
    let ghost accepted = mods_view(mods@);
    let ghost e0 = errors_view(errors@);
    let mut banks = Banks::new();
    assert(load_state(&banks) =~= empty_state()) by {
        assert(texts(banks.pooled@) =~= Seq::<Seq<char>>::empty());
    }
    assert(e0 =~= e0 + Seq::<ErrorView>::empty());
    let mut j: usize = 0;
    while j < mods.len()
        invariant
            j <= mods@.len(),
            accepted == mods_view(mods@),
            load_state(&banks) == register_mods(empty_state(), accepted.take(j as int)).0,
            errors_view(errors@) == e0 + register_mods(empty_state(), accepted.take(j as int)).1,
        decreases mods@.len() - j,
    {
        proof {
            assert(accepted.take(j as int + 1).drop_last() =~= accepted.take(j as int));
            assert(accepted.take(j as int + 1).last() == accepted[j as int]);
        }
        let ghost prior = register_mods(empty_state(), accepted.take(j as int)).1;
        let ghost before = errors_view(errors@);
        register_mod(&mut banks, &mods[j], &mut errors);
        let ghost added = register_manifests(register_mods(empty_state(), accepted.take(j as int)).0, accepted[j as int].manifests).1;
        assert(e0 + (prior + added) =~= (e0 + prior) + added);
        j = j + 1;
    }
    proof {
        assert(accepted.take(accepted.len() as int) =~= accepted);
    }
    (banks, errors)
}

/// `b` starts with `a`.
pub open spec fn extends<A>(a: Seq<A>, b: Seq<A>) -> bool {
    a.len() <= b.len() && forall|i: int| 0 <= i < a.len() ==> #[trigger] b[i] == a[i]
}

/// `b` holds all that `a` holds, in the same order, and maybe more.
pub open spec fn grows(a: LoadState, b: LoadState) -> bool {
    &&& extends(a.ids, b.ids)
    &&& extends(a.data, b.data)
    &&& extends(a.settings, b.settings)
    &&& extends(a.pooled, b.pooled)
    &&& extends(a.single, b.single)
    &&& extends(a.dual, b.dual)
}

/// The line `x` of the entry `e` of `section` is held by `st`: its id is
/// registered, and its subtitle, if any, stored under its key.
pub open spec fn line_held(st: LoadState, section: Source, e: EntryView, x: AudioLineView) -> bool {
    &&& st.ids.contains(spec_make_id(line_key(e.name, x.key), section_usage(section, e.usage), section, x.file))
    &&& match (x.subtitle, x.key) {
        (Some(m), LineKey::Single(l)) => st.single.contains((LocaleKey(e.name, l), m)),
        (Some(m), LineKey::Dual(l, g)) => st.dual.contains((BothKey(e.name, l, g), m)),
        _ => true,
    }
}

proof fn lemma_grows_trans(a: LoadState, b: LoadState, c: LoadState)
    requires
        grows(a, b),
        grows(b, c),
    ensures
        grows(a, c),
{
    assert forall|i: int| 0 <= i < a.ids.len() implies #[trigger] c.ids[i] == a.ids[i] by {
        assert(b.ids[i] == a.ids[i]);
    }
    assert forall|i: int| 0 <= i < a.data.len() implies #[trigger] c.data[i] == a.data[i] by {
        assert(b.data[i] == a.data[i]);
    }
    assert forall|i: int| 0 <= i < a.settings.len() implies #[trigger] c.settings[i] == a.settings[i] by {
        assert(b.settings[i] == a.settings[i]);
    }
    assert forall|i: int| 0 <= i < a.pooled.len() implies #[trigger] c.pooled[i] == a.pooled[i] by {
        assert(b.pooled[i] == a.pooled[i]);
    }
    assert forall|i: int| 0 <= i < a.single.len() implies #[trigger] c.single[i] == a.single[i] by {
        assert(b.single[i] == a.single[i]);
    }
    assert forall|i: int| 0 <= i < a.dual.len() implies #[trigger] c.dual[i] == a.dual[i] by {
        assert(b.dual[i] == a.dual[i]);
    }
}

/// What a state holds, a state that grows from it holds too.
proof fn lemma_line_held_grows(a: LoadState, b: LoadState, section: Source, e: EntryView, x: AudioLineView)
    requires
        grows(a, b),
        line_held(a, section, e, x),
    ensures
        line_held(b, section, e, x),
{
    let id = spec_make_id(line_key(e.name, x.key), section_usage(section, e.usage), section, x.file);
    let j = choose|j: int| 0 <= j < a.ids.len() && a.ids[j] == id;
    assert(b.ids[j] == a.ids[j]);
    if let Some(m) = x.subtitle {
        if let LineKey::Single(l) = x.key {
            let k = choose|k: int| 0 <= k < a.single.len() && a.single[k] == (LocaleKey(e.name, l), m);
            assert(b.single[k] == a.single[k]);
        }
        if let LineKey::Dual(l, g) = x.key {
            let k = choose|k: int| 0 <= k < a.dual.len() && a.dual[k] == (BothKey(e.name, l, g), m);
            assert(b.dual[k] == a.dual[k]);
        }
    }
}

proof fn lemma_line_step(st: LoadState, section: Source, e: EntryView, x: AudioLineView)
    ensures
        grows(st, line_step(st, section, e, x).0),
        line_step(st, section, e, x).0.pooled == st.pooled,
        line_step(st, section, e, x).1 is None ==> line_held(line_step(st, section, e, x).0, section, e, x),
{
    let r = line_step(st, section, e, x).0;
    if let Some(st1) = store_subtitle(st, e.name, x) {
        assert(grows(st, st1));
        if line_step(st, section, e, x).1 is None {
            let id = spec_make_id(line_key(e.name, x.key), section_usage(section, e.usage), section, x.file);
            assert(r.ids[r.ids.len() - 1] == id);
            assert(r.ids.contains(id));
            if let Some(m) = x.subtitle {
                if let LineKey::Single(l) = x.key {
                    assert(st1.single[st1.single.len() - 1] == (LocaleKey(e.name, l), m));
                    assert(r.single[st1.single.len() - 1] == st1.single[st1.single.len() - 1]);
                    assert(r.single.contains((LocaleKey(e.name, l), m)));
                }
                if let LineKey::Dual(l, g) = x.key {
                    assert(st1.dual[st1.dual.len() - 1] == (BothKey(e.name, l, g), m));
                    assert(r.dual[st1.dual.len() - 1] == st1.dual[st1.dual.len() - 1]);
                    assert(r.dual.contains((BothKey(e.name, l, g), m)));
                }
            }

        }
    }
}

proof fn lemma_line_steps(st: LoadState, section: Source, e: EntryView, xs: Seq<AudioLineView>)
    ensures
        grows(st, line_steps(st, section, e, xs).0),
        line_steps(st, section, e, xs).0.pooled == st.pooled,
        line_steps(st, section, e, xs).1 is None ==> forall|k: int| 0 <= k < xs.len()
            ==> line_held(line_steps(st, section, e, xs).0, section, e, #[trigger] xs[k]),
    decreases xs.len(),
{
    if xs.len() > 0 {
        let d = xs.drop_last();
        lemma_line_steps(st, section, e, d);
        let (s1, f1) = line_steps(st, section, e, d);
        if f1 is None {
            lemma_line_step(s1, section, e, xs.last());
            lemma_grows_trans(st, s1, line_steps(st, section, e, xs).0);
            let r = line_steps(st, section, e, xs).0;
            if line_steps(st, section, e, xs).1 is None {
                assert forall|k: int| 0 <= k < xs.len() implies line_held(r, section, e, #[trigger] xs[k]) by {
                    if k < xs.len() - 1 {
                        assert(xs[k] == d[k]);
                        lemma_line_held_grows(s1, r, section, e, d[k]);
                    }
                }
            }
        }
    }
}

/// A registered entry holds every line: each id is registered and each
/// subtitle stored, and its key joins the name pool. Registration, refused
/// or not, only ever adds to what the banks hold, and a refused entry does
/// not join the name pool.
pub proof fn law_registered_entry_held(st: LoadState, section: Source, e: EntryView)
    ensures
        grows(st, entry_step(st, section, e).0),
        entry_step(st, section, e).1 is None ==> {
            let r = entry_step(st, section, e).0;
            &&& r.pooled.contains(e.key)
            &&& forall|k: int| 0 <= k < e.lines.len() ==> line_held(r, section, e, #[trigger] e.lines[k])
        },
        entry_step(st, section, e).1 is Some ==> entry_step(st, section, e).0.pooled == st.pooled,
{
    lemma_line_steps(st, section, e, e.lines);
    let (s1, f) = line_steps(st, section, e, e.lines);
    if !(e.in_game_pool || st.pooled.contains(e.key)) && !(!checks_audio_first(section) && has_nul(e.key)) && f is None {
        let r = entry_step(st, section, e).0;
        assert(grows(s1, r));
        lemma_grows_trans(st, s1, r);
        assert(r.pooled[r.pooled.len() - 1] == e.key);
        assert forall|k: int| 0 <= k < e.lines.len() implies line_held(r, section, e, #[trigger] e.lines[k]) by {
            lemma_line_held_grows(s1, r, section, e, e.lines[k]);
        }
    }
}

proof fn lemma_entry_steps(st: LoadState, section: Source, es: Seq<EntryView>)
    ensures
        grows(st, entry_steps(st, section, es).0),
        entry_steps(st, section, es).1.len() <= es.len(),
    decreases es.len(),
{
    if es.len() > 0 {
        lemma_entry_steps(st, section, es.drop_last());
        let s1 = entry_steps(st, section, es.drop_last()).0;
        law_registered_entry_held(s1, section, es.last());
        lemma_grows_trans(st, s1, entry_steps(st, section, es).0);
    }
}

/// Registering a manifest only ever adds to what the banks hold; a
/// manifest that declares a key twice changes nothing and gives exactly one
/// error; else there is at most one error per entry.
pub proof fn law_manifest_only_adds(st: LoadState, m: ManifestView)
    ensures
        grows(st, register_spec(st, m).0),
        !manifest_keys(m).no_duplicates() ==> register_spec(st, m).0 == st && register_spec(st, m).1.len() == 1,
        manifest_keys(m).no_duplicates() ==> register_spec(st, m).1.len()
            <= m.sfx.len() + m.onos.len() + m.voices.len() + m.music.len() + m.jingles.len(),
{
    if manifest_keys(m).no_duplicates() {
        let (s1, e1) = entry_steps(st, Source::Sfx, m.sfx);
        let (s2, e2) = entry_steps(s1, Source::Ono, m.onos);
        let (s3, e3) = entry_steps(s2, Source::Voices, m.voices);
        let (s4, e4) = entry_steps(s3, Source::Music, m.music);
        lemma_entry_steps(st, Source::Sfx, m.sfx);
        lemma_entry_steps(s1, Source::Ono, m.onos);
        lemma_entry_steps(s2, Source::Voices, m.voices);
        lemma_entry_steps(s3, Source::Music, m.music);
        lemma_entry_steps(s4, Source::Jingle, m.jingles);
        lemma_grows_trans(st, s1, s2);
        lemma_grows_trans(st, s2, s3);
        lemma_grows_trans(st, s3, s4);
        lemma_grows_trans(st, s4, register_spec(st, m).0);
    }
}

/// Every name is held by keys of one kind only.
pub open spec fn one_kind_per_name(ids: Seq<IdView>) -> bool {
    forall|i: int, j: int|
        0 <= i < ids.len() && 0 <= j < ids.len() && id_name(#[trigger] ids[i]) == id_name(#[trigger] ids[j])
            ==> same_kind(id_key(ids[i]), id_key(ids[j]))
}

proof fn lemma_line_step_one_kind(st: LoadState, section: Source, e: EntryView, x: AudioLineView)
    requires
        one_kind_per_name(st.ids),
    ensures
        one_kind_per_name(line_step(st, section, e, x).0.ids),
{
    let r = line_step(st, section, e, x).0;
    if r.ids.len() > st.ids.len() {
        let key = line_key(e.name, x.key);
        let id = spec_make_id(key, section_usage(section, e.usage), section, x.file);
        assert(r.ids == st.ids.push(id));
        assert(id_key(id) == key);
        assert forall|i: int, j: int|
            0 <= i < r.ids.len() && 0 <= j < r.ids.len() && id_name(#[trigger] r.ids[i]) == id_name(#[trigger] r.ids[j])
            implies same_kind(id_key(r.ids[i]), id_key(r.ids[j])) by {
            if i < st.ids.len() && j == st.ids.len() {
                assert(r.ids[i] == st.ids[i]);
                if !same_kind(id_key(st.ids[i]), key) {
                    assert(conflicts(st.ids, key));
                }
            } else if j < st.ids.len() && i == st.ids.len() {
                assert(r.ids[j] == st.ids[j]);
                if !same_kind(id_key(st.ids[j]), key) {
                    assert(conflicts(st.ids, key));
                }
            } else if i < st.ids.len() && j < st.ids.len() {
                assert(r.ids[i] == st.ids[i] && r.ids[j] == st.ids[j]);
            }
        }
    } else {
        assert(r.ids == st.ids);
    }
}

proof fn lemma_line_steps_one_kind(st: LoadState, section: Source, e: EntryView, xs: Seq<AudioLineView>)
    requires
        one_kind_per_name(st.ids),
    ensures
        one_kind_per_name(line_steps(st, section, e, xs).0.ids),
    decreases xs.len(),
{
    if xs.len() > 0 {
        lemma_line_steps_one_kind(st, section, e, xs.drop_last());
        let (s1, f1) = line_steps(st, section, e, xs.drop_last());
        if f1 is None {
            lemma_line_step_one_kind(s1, section, e, xs.last());
        }
    }
}

proof fn lemma_entry_steps_one_kind(st: LoadState, section: Source, es: Seq<EntryView>)
    requires
        one_kind_per_name(st.ids),
    ensures
        one_kind_per_name(entry_steps(st, section, es).0.ids),
    decreases es.len(),
{
    if es.len() > 0 {
        lemma_entry_steps_one_kind(st, section, es.drop_last());
        let s1 = entry_steps(st, section, es.drop_last()).0;
        lemma_line_steps_one_kind(s1, section, es.last(), es.last().lines);
    }
}

proof fn lemma_register_one_kind(st: LoadState, m: ManifestView)
    requires
        one_kind_per_name(st.ids),
    ensures
        one_kind_per_name(register_spec(st, m).0.ids),
{
    if manifest_keys(m).no_duplicates() {
        let s1 = entry_steps(st, Source::Sfx, m.sfx).0;
        let s2 = entry_steps(s1, Source::Ono, m.onos).0;
        let s3 = entry_steps(s2, Source::Voices, m.voices).0;
        let s4 = entry_steps(s3, Source::Music, m.music).0;
        lemma_entry_steps_one_kind(st, Source::Sfx, m.sfx);
        lemma_entry_steps_one_kind(s1, Source::Ono, m.onos);
        lemma_entry_steps_one_kind(s2, Source::Voices, m.voices);
        lemma_entry_steps_one_kind(s3, Source::Music, m.music);
        lemma_entry_steps_one_kind(s4, Source::Jingle, m.jingles);
    }
}

proof fn lemma_register_manifests_one_kind(st: LoadState, ms: Seq<ManifestView>)
    requires
        one_kind_per_name(st.ids),
    ensures
        one_kind_per_name(register_manifests(st, ms).0.ids),
    decreases ms.len(),
{
    if ms.len() > 0 {
        lemma_register_manifests_one_kind(st, ms.drop_last());
        lemma_register_one_kind(register_manifests(st, ms.drop_last()).0, ms.last());
    }
}

proof fn lemma_register_mods_one_kind(st: LoadState, mods: Seq<LoadedModView>)
    requires
        one_kind_per_name(st.ids),
    ensures
        one_kind_per_name(register_mods(st, mods).0.ids),
    decreases mods.len(),
{
    if mods.len() > 0 {
        lemma_register_mods_one_kind(st, mods.drop_last());
        lemma_register_manifests_one_kind(register_mods(st, mods.drop_last()).0, mods.last().manifests);
    }
}

/// Loaded banks hold every name under keys of one kind only: audio for a
/// name alone, per gender, per locale, or per locale and gender, never two
/// of these.
pub proof fn law_loaded_names_have_one_kind(redmod_exists: bool, redmod: Seq<LoadedModView>, legacy: Seq<LoadedModView>)
    ensures
        one_kind_per_name(load_spec(redmod_exists, redmod, legacy).0.ids),
{
    let mods = accept_mods(redmod_exists, redmod, legacy).0;
    lemma_register_mods_one_kind(empty_state(), mods);
}

/// Once a line of an entry is registered into banks that hold each name
/// under one kind of key, looking its name up finds audio of its key: for
/// any locale and gender when it exists for the name alone, for its gender
/// when per gender, in its locale when per locale, and in its locale for
/// its gender when per locale and gender.
pub proof fn law_registered_line_found(st: LoadState, section: Source, e: EntryView, k: int, spoken: SpokenLocale, gender: Option<PlayerGender>)
    requires
        one_kind_per_name(st.ids),
        entry_step(st, section, e).1 is None,
        0 <= k < e.lines.len(),
    ensures
        ({
            let ids = entry_step(st, section, e).0.ids;
            match e.lines[k].key {
                LineKey::Unique => lookup(ids, e.name, spoken, gender) matches Ok(v)
                    && id_key(v) == Key::Unique(UniqueKey(e.name)),
                LineKey::Gender(g) => gender == Some(g) ==> (lookup(ids, e.name, spoken, gender) matches Ok(v)
                    && id_key(v) == Key::Gender(GenderKey(e.name, g))),
                LineKey::Single(l) => spoken.0 == l ==> (lookup(ids, e.name, spoken, gender) matches Ok(v)
                    && id_key(v) == Key::Locale(LocaleKey(e.name, l))),
                LineKey::Dual(l, g) => spoken.0 == l && gender == Some(g) ==> (lookup(ids, e.name, spoken, gender) matches Ok(v)
                    && id_key(v) == Key::Both(BothKey(e.name, l, g))),
            }
        }),
{
    law_registered_entry_held(st, section, e);
    lemma_line_steps_one_kind(st, section, e, e.lines);
    let r = entry_step(st, section, e).0;
    let x = e.lines[k];
    assert(line_held(r, section, e, x));
    let key = line_key(e.name, x.key);
    let id = spec_make_id(key, section_usage(section, e.usage), section, x.file);
    let j = choose|j: int| 0 <= j < r.ids.len() && r.ids[j] == id;
    assert(id_key(r.ids[j]) == key);
    assert(one_kind_per_name(r.ids)) by {
        let (s1, f) = line_steps(st, section, e, e.lines);
        assert(r.ids == s1.ids);
    }
    assert(any_named(r.ids, e.name)) by {
        assert(id_name(r.ids[j]) == e.name);
    }
    assert forall|i: int| 0 <= i < r.ids.len() && id_name(#[trigger] r.ids[i]) == e.name
        implies same_kind(id_key(r.ids[i]), key) by {
        assert(id_name(r.ids[j]) == e.name);
    }
    match x.key {
        LineKey::Unique => {
            law_unique_name_found(r.ids, e.name, spoken, gender, j);
        },
        LineKey::Gender(g) => {
            law_gendered_name(r.ids, e.name, spoken, gender);
        },
        LineKey::Single(l) => {
            law_localized_name(r.ids, e.name, spoken, gender);
        },
        LineKey::Dual(l, g) => {
            law_dual_voiced_name(r.ids, e.name, spoken, gender);
        },
    }
}

/// Every id of audio kept in memory has its data stored under its key.
pub open spec fn in_memory_data_held(st: LoadState) -> bool {
    forall|j: int| 0 <= j < st.ids.len() && (#[trigger] st.ids[j]) is InMemory ==> st.data.contains(id_key(st.ids[j]))
}

proof fn lemma_data_held_grows(a: LoadState, b: LoadState)
    requires
        grows(a, b),
        in_memory_data_held(a),
        b.ids == a.ids,
    ensures
        in_memory_data_held(b),
{
    assert forall|j: int| 0 <= j < b.ids.len() && (#[trigger] b.ids[j]) is InMemory implies b.data.contains(id_key(b.ids[j])) by {
        let k = choose|k: int| 0 <= k < a.data.len() && a.data[k] == id_key(a.ids[j]);
        assert(b.data[k] == a.data[k]);
    }
}

proof fn lemma_line_step_data_held(st: LoadState, section: Source, e: EntryView, x: AudioLineView)
    requires
        in_memory_data_held(st),
    ensures
        in_memory_data_held(line_step(st, section, e, x).0),
{
    lemma_line_step(st, section, e, x);
    let r = line_step(st, section, e, x).0;
    if r.ids.len() > st.ids.len() {
        let key = line_key(e.name, x.key);
        let usage = section_usage(section, e.usage);
        let id = spec_make_id(key, usage, section, x.file);
        assert(r.ids == st.ids.push(id));
        assert forall|j: int| 0 <= j < r.ids.len() && (#[trigger] r.ids[j]) is InMemory implies r.data.contains(id_key(r.ids[j])) by {
            if j < st.ids.len() {
                assert(r.ids[j] == st.ids[j]);
                let k = choose|k: int| 0 <= k < st.data.len() && st.data[k] == id_key(st.ids[j]);
                assert(r.data[k] == st.data[k]);
            } else {
                assert(usage == AudioUsage::InMemory);
                assert(id_key(id) == key);
                assert(r.data[r.data.len() - 1] == key);
            }
        }
    } else {
        assert(r.ids == st.ids);
        lemma_data_held_grows(st, r);
    }
}

proof fn lemma_line_steps_data_held(st: LoadState, section: Source, e: EntryView, xs: Seq<AudioLineView>)
    requires
        in_memory_data_held(st),
    ensures
        in_memory_data_held(line_steps(st, section, e, xs).0),
    decreases xs.len(),
{
    if xs.len() > 0 {
        lemma_line_steps_data_held(st, section, e, xs.drop_last());
        let (s1, f1) = line_steps(st, section, e, xs.drop_last());
        if f1 is None {
            lemma_line_step_data_held(s1, section, e, xs.last());
        }
    }
}

proof fn lemma_entry_steps_data_held(st: LoadState, section: Source, es: Seq<EntryView>)
    requires
        in_memory_data_held(st),
    ensures
        in_memory_data_held(entry_steps(st, section, es).0),
    decreases es.len(),
{
    if es.len() > 0 {
        lemma_entry_steps_data_held(st, section, es.drop_last());
        let s1 = entry_steps(st, section, es.drop_last()).0;
        lemma_line_steps_data_held(s1, section, es.last(), es.last().lines);
    }
}

/// Registering a manifest keeps the data of every in-memory id stored.
pub proof fn law_manifest_keeps_data_held(st: LoadState, m: ManifestView)
    requires
        in_memory_data_held(st),
    ensures
        in_memory_data_held(register_spec(st, m).0),
{
    if manifest_keys(m).no_duplicates() {
        let s1 = entry_steps(st, Source::Sfx, m.sfx).0;
        let s2 = entry_steps(s1, Source::Ono, m.onos).0;
        let s3 = entry_steps(s2, Source::Voices, m.voices).0;
        let s4 = entry_steps(s3, Source::Music, m.music).0;
        lemma_entry_steps_data_held(st, Source::Sfx, m.sfx);
        lemma_entry_steps_data_held(s1, Source::Ono, m.onos);
        lemma_entry_steps_data_held(s2, Source::Voices, m.voices);
        lemma_entry_steps_data_held(s3, Source::Music, m.music);
        lemma_entry_steps_data_held(s4, Source::Jingle, m.jingles);
    }
}

proof fn lemma_register_manifests_data_held(st: LoadState, ms: Seq<ManifestView>)
    requires
        in_memory_data_held(st),
    ensures
        in_memory_data_held(register_manifests(st, ms).0),
    decreases ms.len(),
{
    if ms.len() > 0 {
        lemma_register_manifests_data_held(st, ms.drop_last());
        law_manifest_keeps_data_held(register_manifests(st, ms.drop_last()).0, ms.last());
    }
}

proof fn lemma_register_mods_data_held(st: LoadState, mods: Seq<LoadedModView>)
    requires
        in_memory_data_held(st),
    ensures
        in_memory_data_held(register_mods(st, mods).0),
    decreases mods.len(),
{
    if mods.len() > 0 {
        lemma_register_mods_data_held(st, mods.drop_last());
        lemma_register_manifests_data_held(register_mods(st, mods.drop_last()).0, mods.last().manifests);
    }
}

/// In loaded banks, every id of audio kept in memory has its data stored
/// under its key.
pub proof fn law_loaded_in_memory_ids_hold_data(redmod_exists: bool, redmod: Seq<LoadedModView>, legacy: Seq<LoadedModView>)
    ensures
        in_memory_data_held(load_spec(redmod_exists, redmod, legacy).0),
{
    let mods = accept_mods(redmod_exists, redmod, legacy).0;
    lemma_register_mods_data_held(empty_state(), mods);
}

} // verus!
