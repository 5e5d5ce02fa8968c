use audioware::bank::ensure::{AudioUsage, ModFolder};
use audioware::bank::error::{Error, ValidationError};
use audioware::bank::key::{Key, UniqueKey};
use audioware::bank::load::{
    ensure_jingles, ensure_key_no_conflict, ensure_key_unique, ensure_music, ensure_ono, ensure_sfx, ensure_store_data,
    ensure_store_settings, ensure_voice, load_banks, register_manifest, AudioLine, LineKey, LoadedMod, ManifestEntries,
    ManifestEntry,
};
use audioware::bank::registry::{Banks, KeyStore};
use audioware::manifest::{Locale, PlayerGender, SpokenLocale};
use audioware::names::CName;

fn line(key: LineKey, path: &str, valid: bool, has_settings: bool) -> AudioLine {
    AudioLine { key, path: path.to_string(), file: format!("mods/m/{path}"), valid, has_settings, subtitle: None }
}

fn entry(key: &str, name: u64, usage: AudioUsage, lines: Vec<AudioLine>) -> ManifestEntry {
    ManifestEntry { key: key.to_string(), name: CName::new(name), in_game_pool: false, usage, lines }
}

fn sfx(key: &str, name: u64) -> ManifestEntry {
    entry(key, name, AudioUsage::InMemory, vec![line(LineKey::Unique, &format!("{key}.wav"), true, false)])
}

fn empty_manifest() -> ManifestEntries {
    ManifestEntries { sfx: vec![], onos: vec![], voices: vec![], music: vec![], jingles: vec![] }
}

fn kind(e: &Error) -> String {
    match e {
        Error::Registry { .. } => "registry".to_string(),
        Error::Validation { source } => match source {
            ValidationError::DuplicateAcrossDepots { folder } => format!("depots {folder}"),
            ValidationError::NonUniqueKey { cname } => format!("non-unique {cname}"),
            ValidationError::ConflictingKey { cname } => format!("conflict {cname}"),
            ValidationError::InvalidAudioID => "invalid id".to_string(),
            ValidationError::InvalidAudio { path } => format!("invalid audio {path}"),
            ValidationError::CannotStoreData { path, .. } => format!("data {path}"),
            ValidationError::CannotStoreSubtitle => "subtitle".to_string(),
            ValidationError::CannotStoreSettings => "settings".to_string(),
            ValidationError::CannotStoreAgnosticId { .. } => "id".to_string(),
        },
    }
}

#[test]
fn sfx_in_memory_stores_its_data_once() {
    let mut b = Banks::new();
    assert!(ensure_sfx(&mut b, &sfx("a", 1)).is_ok());
    assert!(b.data.contains(&Key::Unique(UniqueKey(CName::new(1)))));
    assert_eq!(b.id_counts(), (0, 0, 1));
    let r = ensure_sfx(&mut b, &sfx("b", 1)).unwrap_err();
    assert_eq!(kind(&r), "data b.wav");
    assert_eq!(b.ids.len(), 1);
    assert_eq!(b.pooled, vec!["a".to_string()]);
}

#[test]
fn settings_are_stored_once_per_key() {
    let mut b = Banks::new();
    let s = entry("s", 2, AudioUsage::OnDemand, vec![line(LineKey::Unique, "s.wav", true, true)]);
    assert!(ensure_sfx(&mut b, &s).is_ok());
    assert!(b.settings.contains(&Key::Unique(UniqueKey(CName::new(2)))));
    let m = entry("m", 2, AudioUsage::Streaming, vec![line(LineKey::Unique, "m.ogg", true, true)]);
    assert_eq!(kind(&ensure_music(&mut b, &m).unwrap_err()), "settings");
}

#[test]
fn music_and_jingles_are_streamed() {
    let mut b = Banks::new();
    let m = entry("m", 3, AudioUsage::InMemory, vec![line(LineKey::Unique, "m.ogg", true, false)]);
    assert!(ensure_music(&mut b, &m).is_ok());
    let j = entry("j", 4, AudioUsage::OnDemand, vec![line(LineKey::Unique, "j.ogg", true, false)]);
    assert!(ensure_jingles(&mut b, &j).is_ok());
    assert_eq!(b.id_counts(), (0, 2, 0));
    assert!(b.data.contains(&Key::Unique(UniqueKey(CName::new(3)))) == false);
}

#[test]
fn a_key_with_nul_cannot_be_a_name() {
    let mut b = Banks::new();
    assert_eq!(kind(&ensure_sfx(&mut b, &sfx("a\0", 5)).unwrap_err()), "invalid id");
    // music checks its audio first
    let bad = entry("m\0", 6, AudioUsage::Streaming, vec![line(LineKey::Unique, "m.ogg", false, false)]);
    assert_eq!(kind(&ensure_music(&mut b, &bad).unwrap_err()), "invalid audio m.ogg");
    let good = entry("m\0", 6, AudioUsage::Streaming, vec![line(LineKey::Unique, "m.ogg", true, false)]);
    assert_eq!(kind(&ensure_music(&mut b, &good).unwrap_err()), "invalid id");
    assert_eq!(b.ids.len(), 0);
}

#[test]
fn ono_registers_each_gender() {
    let mut b = Banks::new();
    let o = entry(
        "ouch",
        7,
        AudioUsage::OnDemand,
        vec![
            line(LineKey::Gender(PlayerGender::Female), "f.wav", true, false),
            line(LineKey::Gender(PlayerGender::Male), "m.wav", true, false),
        ],
    );
    assert!(ensure_ono(&mut b, &o).is_ok());
    assert_eq!(b.id_counts(), (2, 0, 0));
    assert!(b.try_get(&CName::new(7), &SpokenLocale(Locale::English), Some(&PlayerGender::Male)).is_ok());
    // an sfx under the same name conflicts with the gendered audio
    assert_eq!(kind(&ensure_sfx(&mut b, &sfx("ouch2", 7)).unwrap_err()), "conflict ouch2");
}

#[test]
fn named_checks() {
    let pooled = vec!["x".to_string()];
    assert!(ensure_key_unique(false, &pooled, &"y".to_string()).is_ok());
    assert!(ensure_key_unique(true, &pooled, &"y".to_string()).is_err());
    assert!(ensure_key_unique(false, &pooled, &"x".to_string()).is_err());
    let mut b = Banks::new();
    assert!(ensure_sfx(&mut b, &sfx("a", 8)).is_ok());
    let k = Key::Unique(UniqueKey(CName::new(8)));
    assert!(ensure_key_no_conflict(&k, &"a".to_string(), &b.ids).is_ok());
    let g = Key::Gender(audioware::bank::key::GenderKey(CName::new(8), PlayerGender::Male));
    assert!(ensure_key_no_conflict(&g, &"a".to_string(), &b.ids).is_err());
    let mut store = KeyStore::new();
    assert!(ensure_store_data(k, &"a.wav".to_string(), &mut store).is_ok());
    assert!(ensure_store_data(k, &"a.wav".to_string(), &mut store).is_err());
    let mut settings = KeyStore::new();
    assert!(ensure_store_settings(k, &mut settings).is_ok());
    assert!(ensure_store_settings(k, &mut settings).is_err());
}

#[test]
fn manifest_with_a_repeated_key_is_skipped() {
    let mut b = Banks::new();
    let mut m = empty_manifest();
    m.sfx.push(sfx("a", 1));
    m.music.push(entry("a", 1, AudioUsage::Streaming, vec![line(LineKey::Unique, "a.ogg", true, false)]));
    let errors = register_manifest(&mut b, &m);
    assert_eq!(errors.iter().map(kind).collect::<Vec<_>>(), vec!["conflict a".to_string()]);
    assert_eq!(b.ids.len(), 0);
}

#[test]
fn manifest_collects_one_error_per_refused_entry() {
    let mut b = Banks::new();
    let mut m = empty_manifest();
    m.sfx.push(sfx("a", 1));
    m.sfx.push(entry("bad", 2, AudioUsage::InMemory, vec![line(LineKey::Unique, "bad.wav", false, false)]));
    m.sfx.push(sfx("c", 3));
    // jingles may repeat a key of another section, but the name is taken
    m.jingles.push(entry("a", 1, AudioUsage::Streaming, vec![line(LineKey::Unique, "a.ogg", true, false)]));
    let errors = register_manifest(&mut b, &m);
    assert_eq!(
        errors.iter().map(kind).collect::<Vec<_>>(),
        vec!["invalid audio bad.wav".to_string(), "non-unique a".to_string()]
    );
    assert_eq!(b.ids.len(), 2);
    assert_eq!(b.pooled, vec!["a".to_string(), "c".to_string()]);
}

fn loaded(path: &str, name: &str, manifests: Vec<ManifestEntries>) -> LoadedMod {
    LoadedMod { folder: ModFolder { path: path.to_string(), name: name.to_string() }, manifests }
}

#[test]
fn banks_load_from_both_depots() {
    let mut first = empty_manifest();
    first.sfx.push(sfx("a", 1));
    let mut second = empty_manifest();
    second.sfx.push(sfx("b", 2));
    let mut third = empty_manifest();
    third.sfx.push(sfx("c", 3));
    let redmod = vec![loaded("mods/x", "x", vec![first])];
    let legacy = vec![loaded("r6/audioware/x", "x", vec![second]), loaded("r6/audioware/y", "y", vec![third])];
    let (banks, errors) = load_banks(true, redmod, legacy);
    assert_eq!(errors.iter().map(kind).collect::<Vec<_>>(), vec!["depots r6/audioware/x".to_string()]);
    assert_eq!(banks.pooled, vec!["a".to_string(), "c".to_string()]);
    assert!(banks.exists_audio(&CName::new(3)));
    assert!(!banks.exists_audio(&CName::new(2)));
}

#[test]
fn without_the_mods_depot_legacy_folders_all_load() {
    let mut m1 = empty_manifest();
    m1.sfx.push(sfx("a", 1));
    let mut m2 = empty_manifest();
    m2.sfx.push(sfx("b", 2));
    let legacy = vec![loaded("r6/audioware/x", "x", vec![m1]), loaded("r6/audioware/x2", "x", vec![m2])];
    let (banks, errors) = load_banks(false, vec![], legacy);
    assert!(errors.is_empty());
    assert_eq!(banks.ids.len(), 2);
}

#[test]
fn languages_include_voices_without_subtitles() {
    let mut b = Banks::new();
    let v = entry("v", 9, AudioUsage::OnDemand, vec![line(LineKey::Single(Locale::French), "fr.wav", true, false)]);
    assert!(ensure_voice(&mut b, &v).is_ok());
    let mut with_sub = line(LineKey::Dual(Locale::Polish, PlayerGender::Male), "pl.wav", true, false);
    with_sub.subtitle = Some("on".to_string());
    let w = entry("w", 10, AudioUsage::OnDemand, vec![with_sub]);
    assert!(ensure_voice(&mut b, &w).is_ok());
    assert!(ensure_sfx(&mut b, &sfx("s", 11)).is_ok());
    let mut langs = b.languages();
    langs.sort_by_key(|l| l.code());
    let mut expected = vec![Locale::French, Locale::Polish];
    expected.sort_by_key(|l| l.code());
    assert_eq!(langs, expected);
}

#[test]
fn a_registered_voice_is_found_in_its_locale() {
    let mut b = Banks::new();
    let v = entry(
        "v",
        12,
        AudioUsage::OnDemand,
        vec![
            line(LineKey::Single(Locale::French), "fr.wav", true, false),
            line(LineKey::Single(Locale::German), "de.wav", true, false),
        ],
    );
    assert!(ensure_voice(&mut b, &v).is_ok());
    let found = b.try_get(&CName::new(12), &SpokenLocale(Locale::German), None).unwrap();
    assert!(matches!(found.key(), Key::Locale(audioware::bank::key::LocaleKey(_, Locale::German))));
    assert!(b.try_get(&CName::new(12), &SpokenLocale(Locale::Korean), None).is_err());
}

#[test]
fn in_memory_ids_of_loaded_banks_have_their_data() {
    let mut m = empty_manifest();
    m.sfx.push(sfx("a", 1));
    m.sfx.push(entry("b", 2, AudioUsage::OnDemand, vec![line(LineKey::Unique, "b.wav", true, true)]));
    let (banks, errors) = load_banks(false, vec![], vec![loaded("r6/audioware/x", "x", vec![m])]);
    assert!(errors.is_empty());
    assert!(banks.data.contains(&Key::Unique(UniqueKey(CName::new(1)))));
    assert!(!banks.data.contains(&Key::Unique(UniqueKey(CName::new(2)))));
    assert!(banks.settings.contains(&Key::Unique(UniqueKey(CName::new(2)))));
    assert_eq!(banks.id_counts(), (1, 0, 1));
}
