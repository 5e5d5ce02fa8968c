use std::collections::HashMap;

use audioware::bank::ensure::{ensure_manifest_no_duplicates, ensure_no_duplicate_accross_depots, make_id, AudioUsage, ManifestKeys, ModFolder};
use audioware::bank::error::{Error, RegistryError, ValidationError};
use audioware::bank::id::{Id, Usage};
use audioware::bank::key::{BothKey, GenderKey, Key, LocaleKey, UniqueKey};
use audioware::bank::registry::{ensure_store_id, Banks};
use audioware::bank::storage::{BankData, BankSettings, OnceStorage};
use audioware::manifest::{Locale, PlayerGender, Source, SpokenLocale};
use audioware::names::CName;

fn n(h: u64) -> CName {
    CName::new(h)
}

fn banks_with(ids: Vec<Id>) -> Banks {
    let mut b = Banks::new();
    for id in ids {
        assert!(ensure_store_id(id, &mut b.ids).is_ok());
    }
    b
}

fn english() -> SpokenLocale {
    SpokenLocale(Locale::English)
}

#[test]
fn id_sources() {
    let sfx = Id::InMemory(Key::Unique(UniqueKey(n(1))), Source::Sfx);
    let voice = Id::OnDemand(Usage::Static(Key::Locale(LocaleKey(n(2), Locale::French)), "a.wav".to_string()), Source::Voices);
    assert!(sfx.is_emissive() && !sfx.is_vocal());
    assert!(voice.is_vocal() && !voice.is_emissive());
    assert_eq!(*voice.source(), Source::Voices);
    assert_eq!(voice.name(), n(2));
    assert_eq!(*voice.key(), Key::Locale(LocaleKey(n(2), Locale::French)));
}

#[test]
fn key_accessors() {
    let k = Key::Both(BothKey(n(1), Locale::German, PlayerGender::Male));
    assert!(k.as_unique().is_none());
    assert!(k.as_gender().is_none());
    assert!(k.as_locale().is_none());
    assert_eq!(k.as_both(), Some(&BothKey(n(1), Locale::German, PlayerGender::Male)));
    assert_eq!(k.name(), n(1));
}

#[test]
fn storing_an_id_twice_is_refused() {
    let mut b = Banks::new();
    let id = Id::InMemory(Key::Unique(UniqueKey(n(1))), Source::Sfx);
    assert!(ensure_store_id(id.duplicate(), &mut b.ids).is_ok());
    match ensure_store_id(id.duplicate(), &mut b.ids) {
        Err(Error::Validation { source: ValidationError::CannotStoreAgnosticId { id: x } }) => assert!(x.same_as(&id)),
        _ => panic!("expected a refusal"),
    }
    assert_eq!(b.ids.len(), 1);
    assert!(b.ids.contains(&id));
}

#[test]
fn unique_audio_is_found_whatever_the_locale() {
    let b = banks_with(vec![Id::InMemory(Key::Unique(UniqueKey(n(1))), Source::Sfx)]);
    let found = b.try_get(&n(1), &SpokenLocale(Locale::Japanese), None).unwrap();
    assert_eq!(found.name(), n(1));
    assert!(b.exists_audio(&n(1)));
    assert!(!b.exists_audio(&n(2)));
    assert!(!b.exists_audio(&CName::undefined()));
}

#[test]
fn unknown_name_is_not_found() {
    let b = banks_with(vec![Id::InMemory(Key::Unique(UniqueKey(n(1))), Source::Sfx)]);
    match b.try_get(&n(9), &english(), None) {
        Err(Error::Registry { source: RegistryError::NotFound { cname } }) => assert_eq!(cname, n(9)),
        _ => panic!("expected not found"),
    }
}

#[test]
fn gendered_audio_requires_a_gender() {
    let b = banks_with(vec![
        Id::InMemory(Key::Gender(GenderKey(n(1), PlayerGender::Female)), Source::Ono),
        Id::InMemory(Key::Gender(GenderKey(n(1), PlayerGender::Male)), Source::Ono),
    ]);
    match b.try_get(&n(1), &english(), None) {
        Err(Error::Registry { source: RegistryError::RequireGender { cname } }) => assert_eq!(cname, n(1)),
        _ => panic!("expected a gender to be required"),
    }
    let male = b.try_get(&n(1), &english(), Some(&PlayerGender::Male)).unwrap();
    assert_eq!(*male.key(), Key::Gender(GenderKey(n(1), PlayerGender::Male)));
}

#[test]
fn localized_audio_in_another_locale_is_missing() {
    let b = banks_with(vec![Id::InMemory(Key::Locale(LocaleKey(n(1), Locale::French)), Source::Voices)]);
    match b.try_get(&n(1), &english(), None) {
        Err(Error::Registry { source: RegistryError::MissingSpokenLocale { cname, locale } }) => {
            assert_eq!(cname, n(1));
            assert_eq!(locale, english());
        }
        _ => panic!("expected a missing locale"),
    }
    assert!(b.try_get(&n(1), &SpokenLocale(Locale::French), None).is_ok());
}

#[test]
fn dual_voices_need_locale_and_gender() {
    let b = banks_with(vec![
        Id::InMemory(Key::Both(BothKey(n(1), Locale::English, PlayerGender::Female)), Source::Voices),
        Id::InMemory(Key::Both(BothKey(n(1), Locale::English, PlayerGender::Male)), Source::Voices),
    ]);
    assert!(matches!(
        b.try_get(&n(1), &english(), None),
        Err(Error::Registry { source: RegistryError::RequireGender { .. } })
    ));
    assert!(matches!(
        b.try_get(&n(1), &SpokenLocale(Locale::Polish), Some(&PlayerGender::Male)),
        Err(Error::Registry { source: RegistryError::MissingSpokenLocale { .. } })
    ));
    let f = b.try_get(&n(1), &english(), Some(&PlayerGender::Female)).unwrap();
    assert_eq!(*f.key(), Key::Both(BothKey(n(1), Locale::English, PlayerGender::Female)));
}

#[test]
fn id_counts_by_kind() {
    let b = banks_with(vec![
        Id::InMemory(Key::Unique(UniqueKey(n(1))), Source::Sfx),
        Id::OnDemand(Usage::Static(Key::Unique(UniqueKey(n(2))), "b.ogg".to_string()), Source::Sfx),
        Id::OnDemand(Usage::Streaming(Key::Unique(UniqueKey(n(3))), "c.mp3".to_string()), Source::Music),
        Id::OnDemand(Usage::Streaming(Key::Unique(UniqueKey(n(4))), "d.mp3".to_string()), Source::Jingle),
    ]);
    assert_eq!(b.id_counts(), (1, 2, 1));
}

#[test]
fn duplicate_folder_across_depots() {
    let m = ModFolder { path: "r6/audioware/a".to_string(), name: "a".to_string() };
    let others = vec![ModFolder { path: "mods/a".to_string(), name: "a".to_string() }];
    match ensure_no_duplicate_accross_depots(true, &m, &others) {
        Err(Error::Validation { source: ValidationError::DuplicateAcrossDepots { folder } }) => assert_eq!(folder, "r6/audioware/a"),
        _ => panic!("expected a duplicate"),
    }
    assert!(ensure_no_duplicate_accross_depots(false, &m, &others).is_ok());
    let other = ModFolder { path: "r6/audioware/b".to_string(), name: "b".to_string() };
    assert!(ensure_no_duplicate_accross_depots(true, &other, &others).is_ok());
}

fn keys(v: &[&str]) -> Option<Vec<String>> {
    Some(v.iter().map(|x| x.to_string()).collect())
}

#[test]
fn manifest_keys_must_be_unique_across_sections() {
    let ok = ManifestKeys { sfx: keys(&["a", "b"]), onos: keys(&["c"]), voices: None, music: keys(&["d"]), jingles: keys(&["a"]) };
    assert!(ensure_manifest_no_duplicates(&ok).is_ok());
    let dup = ManifestKeys { sfx: keys(&["a", "b"]), onos: None, voices: keys(&["c", "b"]), music: keys(&["a"]), jingles: None };
    match ensure_manifest_no_duplicates(&dup) {
        Err(Error::Validation { source: ValidationError::ConflictingKey { cname } }) => assert_eq!(cname, "b"),
        _ => panic!("expected a conflicting key"),
    }
}

#[test]
fn once_storage_is_set_once() {
    let mut s: OnceStorage<u32, String> = OnceStorage::new();
    let mut m = HashMap::new();
    m.insert(1u32, "one".to_string());
    assert!(s.set(m).is_ok());
    let mut again = HashMap::new();
    again.insert(2u32, "two".to_string());
    let back = s.set(again).unwrap_err();
    assert!(back.contains_key(&2));
    assert_eq!(s.keys().copied().collect::<Vec<_>>(), vec![1]);
    assert_eq!(s.values().cloned().collect::<Vec<_>>(), vec!["one".to_string()]);
    assert_eq!(s.iter().count(), 1);
    assert_eq!(s.data(&1), "one");
    assert_eq!(s.settings(&1), Some("one".to_string()));
    assert_eq!(s.settings(&2), None);
}

#[test]
fn unset_storage_has_no_settings() {
    let s: OnceStorage<u32, String> = OnceStorage::new();
    assert_eq!(s.settings(&1), None);
}

#[test]
fn ids_follow_the_usage() {
    let k = Key::Unique(UniqueKey(n(1)));
    assert!(make_id(k, AudioUsage::InMemory, Source::Sfx, "a.wav".to_string()).same_as(&Id::InMemory(k, Source::Sfx)));
    assert!(make_id(k, AudioUsage::OnDemand, Source::Sfx, "a.wav".to_string())
        .same_as(&Id::OnDemand(Usage::Static(k, "a.wav".to_string()), Source::Sfx)));
    assert!(make_id(k, AudioUsage::Streaming, Source::Music, "a.wav".to_string())
        .same_as(&Id::OnDemand(Usage::Streaming(k, "a.wav".to_string()), Source::Music)));
    assert!(!make_id(k, AudioUsage::Streaming, Source::Music, "a.wav".to_string())
        .same_as(&Id::OnDemand(Usage::Streaming(k, "b.wav".to_string()), Source::Music)));
}

