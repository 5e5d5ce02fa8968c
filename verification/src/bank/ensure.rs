//! Checks on mods and manifests before their audio enters the banks.

use vstd::prelude::*;

use crate::bank::error::{Error, ValidationError};
use crate::bank::id::{Id, IdView, Usage, UsageView};
use crate::bank::key::Key;
use crate::manifest::Source;

verus! {

/// A mod folder: its path, and its name within its depot.
pub struct ModFolder {
    pub path: String,
    pub name: String,
}

/// The keys that a manifest declares, section by section.
pub struct ManifestKeys {
    pub sfx: Option<Vec<String>>,
    pub onos: Option<Vec<String>>,
    pub voices: Option<Vec<String>>,
    pub music: Option<Vec<String>>,
    pub jingles: Option<Vec<String>>,
}

/// The texts of some strings.
pub open spec fn texts(v: Seq<String>) -> Seq<Seq<char>> {
    v.map_values(|s: String| s@)
}

pub open spec fn section_keys(o: Option<Vec<String>>) -> Seq<Seq<char>> {
    match o {
        Some(v) => texts(v@),
        None => Seq::empty(),
    }
}

/// The keys that must be unique within a manifest, in order: those of the
/// sound effects, onomatopoeia, voices and music. Jingles are not among them.
pub open spec fn checked_keys(m: ManifestKeys) -> Seq<Seq<char>> {
    section_keys(m.sfx) + section_keys(m.onos) + section_keys(m.voices) + section_keys(m.music)
}

/// `j` is the first index of `s` whose key occurs earlier.
pub open spec fn first_repeat(s: Seq<Seq<char>>, j: int) -> bool {
    &&& 0 <= j < s.len()
    &&& s.take(j).contains(s[j])
    &&& s.take(j).no_duplicates()
}

/// Some folder of `mods` has the name of `m`.
pub open spec fn same_folder_name_in(m: ModFolder, mods: Seq<ModFolder>) -> bool {
    exists|i: int| 0 <= i < mods.len() && (#[trigger] mods[i]).name@ == m.name@
}

/// A mod folder found in both depots is refused from the legacy depot, when
/// the other depot exists.
pub fn ensure_no_duplicate_accross_depots(redmod_exists: bool, candidate: &ModFolder, mods: &Vec<ModFolder>) -> (r: Result<(), Error>)
    ensures
        r is Err <==> redmod_exists && same_folder_name_in(*candidate, mods@),
        r matches Err(e) ==> (e matches Error::Validation {
            source: ValidationError::DuplicateAcrossDepots { folder },
        } && folder@ == candidate.path@),
{
    if !redmod_exists {
        return Ok(());
    }
    let mut i: usize = 0;
    while i < mods.len()
        invariant
            i <= mods.len(),
            redmod_exists,
            forall|j: int| 0 <= j < i ==> (#[trigger] mods@[j]).name@ != candidate.name@,
        decreases mods.len() - i,
    {
        if mods[i].name == candidate.name {
            assert(mods@[i as int].name@ == candidate.name@);
            return Err(Error::Validation {
                source: ValidationError::DuplicateAcrossDepots { folder: candidate.path.clone() },
            });
        }
        i = i + 1;
    }
    Ok(())
}

/// Appends the keys of a section.
fn append_keys(all: &mut Vec<String>, section: &Option<Vec<String>>)
    ensures
        texts(final(all)@) == texts(old(all)@) + section_keys(*section),
{
    if let Some(keys) = section {
        let mut i: usize = 0;
        while i < keys.len()
            invariant
                i <= keys.len(),
                *section == Some(*keys),
                texts(all@) == texts(old(all)@) + texts(keys@).take(i as int),
            decreases keys.len() - i,
        {
            let ghost prev = all@;
            let k = keys[i].clone();
            all.push(k);
            assert(all@ == prev.push(k));
            assert(texts(all@) =~= texts(prev).push(k@));
            assert(texts(keys@).take(i as int + 1) =~= texts(keys@).take(i as int).push(k@));
            i = i + 1;
            assert(texts(all@) =~= texts(old(all)@) + texts(keys@).take(i as int));
        }
        assert(texts(keys@).take(keys.len() as int) =~= texts(keys@));
    } else {
        assert(texts(all@) =~= texts(old(all)@) + Seq::<Seq<char>>::empty());
    }
}

/// Whether some string of `v` has the text of `key`.
pub(crate) fn contains_text(v: &Vec<String>, key: &String) -> (r: bool)
    ensures
        r == texts(v@).contains(key@),
{
    let mut i: usize = 0;
    while i < v.len()
        invariant
            i <= v.len(),
            forall|j: int| 0 <= j < i ==> texts(v@)[j] != key@,
        decreases v.len() - i,
    {
        if v[i] == *key {
            assert(texts(v@)[i as int] == key@);
            return true;
        }
        i = i + 1;
    }
    false
}

/// A manifest may not declare the same key twice among its sound effects,
/// onomatopoeia, voices and music; the first key declared again is named.
pub fn ensure_manifest_no_duplicates(manifest: &ManifestKeys) -> (r: Result<(), Error>)
    ensures
        r is Ok <==> checked_keys(*manifest).no_duplicates(),
        r matches Err(e) ==> (e matches Error::Validation {
            source: ValidationError::ConflictingKey { cname },
        } && exists|j: int| #[trigger] first_repeat(checked_keys(*manifest), j) && checked_keys(*manifest)[j] == cname@),
{
    let mut all: Vec<String> = Vec::new();
    append_keys(&mut all, &manifest.sfx);
    append_keys(&mut all, &manifest.onos);
    append_keys(&mut all, &manifest.voices);
    append_keys(&mut all, &manifest.music);
    let ghost keys = checked_keys(*manifest);
    assert(texts(all@) =~= keys);
    let mut seen: Vec<String> = Vec::new();
    let mut j: usize = 0;
    while j < all.len()
        invariant
            j <= all.len(),
            keys == checked_keys(*manifest),
            texts(all@) == keys,
            texts(seen@) == keys.take(j as int),
            keys.take(j as int).no_duplicates(),
        decreases all.len() - j,
    {
        if contains_text(&seen, &all[j]) {
            assert(first_repeat(keys, j as int));
            proof {
                assert(keys.take(j as int).contains(keys[j as int]));
                assert(!keys.no_duplicates()) by {
                    let i = choose|i: int| 0 <= i < j && keys.take(j as int)[i] == keys[j as int];
                    assert(keys[i] == keys[j as int]);
                }
            }
            return Err(Error::Validation { source: ValidationError::ConflictingKey { cname: all[j].clone() } });
        }
        proof {
            let t = keys.take(j as int + 1);
            assert(t =~= keys.take(j as int).push(keys[j as int]));
            assert forall|a: int, b: int| 0 <= a < b < t.len() implies t[a] != t[b] by {
                if b == j {
                    assert(keys.take(j as int)[a] == t[a]);
                }
            }
        }
        seen.push(all[j].clone());
        j = j + 1;
        assert(texts(seen@) =~= keys.take(j as int));
    }
    assert(keys.take(keys.len() as int) =~= keys);
    Ok(())
}

/// How a manifest asks for its audio to be loaded.
#[derive(Debug, Clone, Copy, PartialEq, Eq, Structural)]
pub enum AudioUsage {
    /// Decoded once, kept in memory.
    InMemory,
    /// Decoded from its file each time it plays.
    OnDemand,
    /// Streamed from its file.
    Streaming,
}

/// The id of audio stored under `key`, loaded as `usage` from `path`.
pub open spec fn spec_make_id(key: Key, usage: AudioUsage, source: Source, path: Seq<char>) -> IdView {
    match usage {
        AudioUsage::InMemory => IdView::InMemory(key, source),
        AudioUsage::OnDemand => IdView::OnDemand(UsageView::Static(key, path), source),
        AudioUsage::Streaming => IdView::OnDemand(UsageView::Streaming(key, path), source),
    }
}

/// The id of audio stored under `key`: in memory, or on demand from `path`.
pub fn make_id(key: Key, usage: AudioUsage, source: Source, path: String) -> (r: Id)
    ensures
        r@ == spec_make_id(key, usage, source, path@),
{
    match usage {
        AudioUsage::InMemory => Id::InMemory(key, source),
        AudioUsage::OnDemand => Id::OnDemand(Usage::Static(key, path), source),
        AudioUsage::Streaming => Id::OnDemand(Usage::Streaming(key, path), source),
    }
}

} // verus!
