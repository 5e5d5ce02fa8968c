use audioware::bank::ensure::AudioUsage;
use audioware::bank::error::{Error, ValidationError};
use audioware::bank::load::{ensure_voice, AudioLine, LineKey, ManifestEntry};
use audioware::bank::registry::Banks;
use audioware::bank::key::{BothKey, LocaleKey};
use audioware::bank::subtitles::{BothSubtitles, DialogLine, LocaleSubtitles, Subtitles};
use audioware::manifest::{Locale, PlayerGender, WrittenLocale};
use audioware::names::CName;

fn line(s: &str) -> DialogLine {
    DialogLine { msg: s.to_string() }
}

#[test]
fn storing_a_subtitle_twice_is_refused() {
    let mut s = LocaleSubtitles::new();
    assert!(s.ensure_store_subtitle(LocaleKey(CName::new(1), Locale::French), line("bonjour")).is_ok());
    assert!(matches!(
        s.ensure_store_subtitle(LocaleKey(CName::new(1), Locale::French), line("salut")),
        Err(Error::Validation { source: ValidationError::CannotStoreSubtitle })
    ));
    assert!(s.ensure_store_subtitle(LocaleKey(CName::new(1), Locale::English), line("hello")).is_ok());
}

#[test]
fn locale_package_keeps_lines_of_the_locale() {
    let mut s = LocaleSubtitles::new();
    s.ensure_store_subtitle(LocaleKey(CName::new(1), Locale::French), line("bonjour")).unwrap();
    s.ensure_store_subtitle(LocaleKey(CName::new(1), Locale::English), line("hello")).unwrap();
    s.ensure_store_subtitle(LocaleKey(CName::new(2), Locale::French), line("au revoir")).unwrap();
    let p = s.package(Locale::French);
    assert_eq!(
        p,
        vec![
            (CName::new(1), ("bonjour".to_string(), "bonjour".to_string())),
            (CName::new(2), ("au revoir".to_string(), "au revoir".to_string())),
        ]
    );
    assert!(s.package(Locale::German).is_empty());
}

#[test]
fn dual_package_pairs_female_and_male_lines() {
    let mut s = BothSubtitles::new();
    s.ensure_store_subtitle(BothKey(CName::new(1), Locale::English, PlayerGender::Female), line("she")).unwrap();
    s.ensure_store_subtitle(BothKey(CName::new(1), Locale::English, PlayerGender::Male), line("he")).unwrap();
    let p = s.package(Locale::English);
    assert_eq!(
        p,
        vec![
            (CName::new(1), ("she".to_string(), "he".to_string())),
            (CName::new(1), ("she".to_string(), "he".to_string())),
        ]
    );
    assert!(matches!(
        s.ensure_store_subtitle(BothKey(CName::new(1), Locale::English, PlayerGender::Male), line("him")),
        Err(Error::Validation { source: ValidationError::CannotStoreSubtitle })
    ));
}

#[test]
fn subtitles_of_a_written_locale_and_languages() {
    let mut all = Subtitles::new();
    all.single.ensure_store_subtitle(LocaleKey(CName::new(1), Locale::Polish), line("cześć")).unwrap();
    all.dual.ensure_store_subtitle(BothKey(CName::new(2), Locale::Polish, PlayerGender::Male), line("on")).unwrap();
    all.dual.ensure_store_subtitle(BothKey(CName::new(2), Locale::Polish, PlayerGender::Female), line("ona")).unwrap();
    all.dual.ensure_store_subtitle(BothKey(CName::new(3), Locale::Czech, PlayerGender::Female), line("ona")).unwrap();
    all.dual.ensure_store_subtitle(BothKey(CName::new(3), Locale::Czech, PlayerGender::Male), line("on")).unwrap();
    let p = all.subtitles(WrittenLocale(Locale::Polish));
    assert_eq!(p.len(), 3);
    assert_eq!(p[0], (CName::new(1), ("cześć".to_string(), "cześć".to_string())));
    assert_eq!(p[1], (CName::new(2), ("ona".to_string(), "on".to_string())));
    let mut langs = all.locales();
    langs.sort_by_key(|l| l.code());
    assert_eq!(langs, vec![Locale::Polish, Locale::Czech]);
}

fn voice_line(key: LineKey, path: &str, valid: bool, subtitle: Option<&str>) -> AudioLine {
    AudioLine {
        key,
        path: path.to_string(),
        file: format!("mod/{path}"),
        valid,
        has_settings: false,
        subtitle: subtitle.map(|s| s.to_string()),
    }
}

fn voice(key: &str, name: u64, usage: AudioUsage, lines: Vec<AudioLine>) -> ManifestEntry {
    ManifestEntry { key: key.to_string(), name: CName::new(name), in_game_pool: false, usage, lines }
}

#[test]
fn voice_registers_lines_until_the_first_refusal() {
    let mut banks = Banks::new();
    let e = voice(
        "greeting",
        7,
        AudioUsage::OnDemand,
        vec![
            voice_line(LineKey::Single(Locale::English), "en.wav", true, Some("hi")),
            voice_line(LineKey::Single(Locale::French), "fr.wav", false, Some("salut")),
            voice_line(LineKey::Single(Locale::German), "de.wav", true, Some("hallo")),
        ],
    );
    match ensure_voice(&mut banks, &e) {
        Err(Error::Validation { source: ValidationError::InvalidAudio { path } }) => assert_eq!(path, "fr.wav"),
        _ => panic!("expected an invalid audio"),
    }
    assert_eq!(banks.ids.len(), 1);
    assert_eq!(banks.subtitles.single.package(Locale::French).len(), 1);
    assert!(banks.subtitles.single.package(Locale::German).is_empty());
    // a refused entry does not join the name pool
    assert!(banks.pooled.is_empty());
}

#[test]
fn dual_voice_registers_every_line() {
    let mut banks = Banks::new();
    let e = voice(
        "banter",
        8,
        AudioUsage::InMemory,
        vec![
            voice_line(LineKey::Dual(Locale::English, PlayerGender::Female), "f.wav", true, Some("she")),
            voice_line(LineKey::Dual(Locale::English, PlayerGender::Male), "m.wav", true, Some("he")),
        ],
    );
    assert!(ensure_voice(&mut banks, &e).is_ok());
    assert_eq!(banks.ids.len(), 2);
    assert_eq!(banks.pooled, vec!["banter".to_string()]);
    assert_eq!(banks.subtitles.subtitles(WrittenLocale(Locale::English)).len(), 2);
    // the same key again is not unique any more
    match ensure_voice(&mut banks, &e) {
        Err(Error::Validation { source: ValidationError::NonUniqueKey { cname } }) => assert_eq!(cname, "banter"),
        _ => panic!("expected a non-unique key"),
    }
    // under another key with the same name, its first subtitle is refused
    let again = voice("banter2", 8, AudioUsage::InMemory, vec![voice_line(LineKey::Dual(Locale::English, PlayerGender::Female), "f.wav", true, Some("she"))]);
    assert!(matches!(
        ensure_voice(&mut banks, &again),
        Err(Error::Validation { source: ValidationError::CannotStoreSubtitle })
    ));
}

#[test]
fn voice_without_subtitles_refuses_a_known_id() {
    let mut banks = Banks::new();
    let e = voice("hello", 9, AudioUsage::Streaming, vec![voice_line(LineKey::Single(Locale::Korean), "ko.wav", true, None)]);
    assert!(ensure_voice(&mut banks, &e).is_ok());
    let again = voice("hello2", 9, AudioUsage::Streaming, vec![voice_line(LineKey::Single(Locale::Korean), "ko.wav", true, None)]);
    assert!(matches!(
        ensure_voice(&mut banks, &again),
        Err(Error::Validation { source: ValidationError::CannotStoreAgnosticId { .. } })
    ));
}

#[test]
fn voice_known_to_the_game_is_refused() {
    let mut banks = Banks::new();
    let mut e = voice("v", 10, AudioUsage::Streaming, vec![voice_line(LineKey::Single(Locale::Korean), "ko.wav", true, None)]);
    e.in_game_pool = true;
    assert!(matches!(
        ensure_voice(&mut banks, &e),
        Err(Error::Validation { source: ValidationError::NonUniqueKey { .. } })
    ));
    assert_eq!(banks.ids.len(), 0);
}

#[test]
fn voice_of_a_name_held_by_another_kind_conflicts() {
    let mut banks = Banks::new();
    let single = voice("a", 11, AudioUsage::Streaming, vec![voice_line(LineKey::Single(Locale::Korean), "ko.wav", true, None)]);
    assert!(ensure_voice(&mut banks, &single).is_ok());
    let dual = voice("b", 11, AudioUsage::Streaming, vec![voice_line(LineKey::Dual(Locale::Korean, PlayerGender::Male), "m.wav", true, None)]);
    match ensure_voice(&mut banks, &dual) {
        Err(Error::Validation { source: ValidationError::ConflictingKey { cname } }) => assert_eq!(cname, "b"),
        _ => panic!("expected a conflicting key"),
    }
}
