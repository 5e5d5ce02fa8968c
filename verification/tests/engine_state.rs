use audioware::audio::data::{Data, SampleRate, With};
use audioware::bank::id::{Id, Usage};
use audioware::bank::key::{Key, UniqueKey};
use audioware::bank::registry::{ensure_store_id, Banks};
use audioware::engine::controls::{next_control_id, ControlCounter, ControlId};
use audioware::engine::dilation::{has_curve, tween_curve, AffectedByTimeDilation, DilationChange, DilationCurve, EmitterEntryOptions};
use audioware::engine::routing::{route_scene_dialog, DialogRefusal, DialogRoute};
use audioware::names::EntityId;
use audioware::engine::routing::{destination, plan_play, plan_play_over_the_phone, plan_switch, TrackEntry, subtitles_for, subtitles_over_the_phone, to_output_destination, Subtitles, Track};
use audioware::engine::state::{PlayerGender, SpokenLocale, WrittenLocale};
use audioware::manifest::{self, Locale, Source};
use audioware::names::CName;

#[test]
fn locales_start_in_english_and_follow_settings() {
    let mut s = SpokenLocale::new();
    assert_eq!(s.get(), manifest::SpokenLocale(Locale::English));
    s.set(Locale::Japanese);
    assert_eq!(s.get(), manifest::SpokenLocale(Locale::Japanese));
    let mut w = WrittenLocale::new();
    assert_eq!(w.get(), manifest::WrittenLocale(Locale::English));
    w.set(Locale::Thai);
    assert_eq!(w.get(), manifest::WrittenLocale(Locale::Thai));
}

#[test]
fn locale_codes_round_trip() {
    assert_eq!(Locale::Thai.code(), 17);
    assert_eq!(Locale::from_code(17), Some(Locale::Thai));
    assert_eq!(Locale::from_code(0), Some(Locale::English));
    assert_eq!(Locale::from_code(18), None);
}

#[test]
fn player_gender_set_and_unset() {
    let mut g = PlayerGender::new();
    assert_eq!(g.get(), None);
    g.set(manifest::PlayerGender::Male);
    assert_eq!(g.get(), Some(manifest::PlayerGender::Male));
    g.set(manifest::PlayerGender::Female);
    assert_eq!(g.get(), Some(manifest::PlayerGender::Female));
    g.unset();
    assert_eq!(g.get(), None);
}

#[test]
fn control_ids_count_up_and_wrap() {
    let mut c = ControlCounter::new();
    assert_eq!(next_control_id(&mut c), ControlId(0));
    assert_eq!(next_control_id(&mut c), ControlId(1));
    let mut top = ControlCounter { next: usize::MAX };
    assert_eq!(next_control_id(&mut top), ControlId(usize::MAX));
    assert_eq!(top.next, 0);
}

#[test]
fn dilation_curves() {
    assert!(!has_curve("None"));
    assert!(!has_curve(""));
    assert!(has_curve("ease"));
    assert_eq!(tween_curve(DilationChange::Apply, "None"), DilationCurve::Linear);
    assert_eq!(tween_curve(DilationChange::Apply, "ease"), DilationCurve::EaseIn);
    assert_eq!(tween_curve(DilationChange::Lift, "ease"), DilationCurve::EaseOut);
    assert_eq!(tween_curve(DilationChange::Lift, ""), DilationCurve::Linear);
}

#[test]
fn emitter_entry_options_follow_dilation_as_told() {
    assert!(EmitterEntryOptions { affected_by_time_dilation: true }.affected_by_time_dilation());
    assert!(!EmitterEntryOptions { affected_by_time_dilation: false }.affected_by_time_dilation());
}

fn id(source: Source, h: u64) -> Id {
    Id::InMemory(Key::Unique(UniqueKey(CName::new(h))), source)
}

#[test]
fn tracks_by_source() {
    assert_eq!(to_output_destination(&id(Source::Sfx, 1)), Track::Sfx);
    assert_eq!(to_output_destination(&id(Source::Ono, 1)), Track::Sfx);
    assert_eq!(to_output_destination(&id(Source::Voices, 1)), Track::Dialogue);
    assert_eq!(to_output_destination(&id(Source::Playlist, 1)), Track::Radioport);
    assert_eq!(to_output_destination(&id(Source::Music, 1)), Track::Music);
    assert_eq!(to_output_destination(&id(Source::Jingle, 1)), Track::CarRadio);
    assert_eq!(destination(&id(Source::Voices, 1), true), Track::VVocal);
    assert_eq!(destination(&id(Source::Music, 1), true), Track::VEmissive);
    assert_eq!(destination(&id(Source::Music, 1), false), Track::Music);
}

#[test]
fn subtitles_decisions() {
    assert_eq!(subtitles_for(true, true, Source::Sfx), Subtitles::Propagate);
    assert_eq!(subtitles_for(true, false, Source::Voices), Subtitles::Warn);
    assert_eq!(subtitles_for(false, true, Source::Sfx), Subtitles::Nothing);
    assert_eq!(subtitles_over_the_phone("Judy", Source::Voices), Subtitles::Propagate);
    assert_eq!(subtitles_over_the_phone("None", Source::Voices), Subtitles::Warn);
}

#[test]
fn play_plan_follows_the_banks() {
    let mut b = Banks::new();
    ensure_store_id(Id::OnDemand(Usage::Streaming(Key::Unique(UniqueKey(CName::new(3))), "m.ogg".to_string()), Source::Music), &mut b.ids).unwrap();
    let sp = manifest::SpokenLocale(Locale::English);
    let npc = EntityId { hash: 42 };
    let p = plan_play(&b, &CName::new(3), &sp, None, false, Some(npc), None, None).unwrap();
    assert_eq!(p.track, Track::Music);
    assert!(p.record.affected_by_time_dilation);
    assert_eq!(p.record.event_name, CName::new(3));
    assert_eq!(p.record.entity_id, Some(npc));
    assert_eq!(p.record.emitter_name, None);
    assert_eq!(p.subtitles, Subtitles::Nothing);
    assert!(p.id.same_as(b.ids.get(0)));
    let q = plan_play(&b, &CName::new(3), &sp, None, true, Some(npc), Some(CName::new(9)), Some(false)).unwrap();
    assert_eq!(q.track, Track::VEmissive);
    assert!(!q.record.affected_by_time_dilation);
    assert_eq!(q.record.emitter_name, Some(CName::new(9)));
    assert_eq!(q.subtitles, Subtitles::Propagate);
    assert!(plan_play(&b, &CName::new(4), &sp, None, false, None, None, None).is_err());
    let call = plan_play_over_the_phone(&b, &CName::new(3), &CName::new(9), "Judy", &sp, &manifest::PlayerGender::Female).unwrap();
    assert_eq!(call.track, Track::Holocall);
    assert_eq!(call.record, TrackEntry { event_name: CName::new(3), entity_id: None, emitter_name: Some(CName::new(9)), affected_by_time_dilation: true });
    assert_eq!(call.subtitles, Subtitles::Propagate);
    let silent = plan_play_over_the_phone(&b, &CName::new(3), &CName::new(0), "", &sp, &manifest::PlayerGender::Male).unwrap();
    assert_eq!(silent.subtitles, Subtitles::Nothing);
    assert!(plan_play_over_the_phone(&b, &CName::new(4), &CName::new(9), "Judy", &sp, &manifest::PlayerGender::Male).is_err());
    assert_eq!(plan_switch(&b, &CName::new(3), &CName::new(4)), (true, false));
}

struct Sound(u32, u32);

impl With<u32> for Sound {
    fn absorbed(self, settings: u32) -> Self {
        Sound(self.0, settings)
    }

    fn with(self, settings: u32) -> Self {
        Sound(self.0, settings)
    }
}

impl SampleRate for Sound {
    fn sample_rate(&self) -> u32 {
        self.0
    }
}

#[test]
fn data_starts_vanilla_and_forwards_sample_rate() {
    let d = Data::new(Sound(48000, 0));
    assert!(matches!(d, Data::Vanilla(_)));
    assert_eq!(d.sample_rate(), 48000);
}

#[test]
fn optional_settings_are_absorbed_when_given() {
    let s = Sound(1, 2).with(None::<u32>);
    assert_eq!(s.1, 2);
    let s = Sound(1, 2).with(Some(5u32));
    assert_eq!(s.1, 5);
}

#[test]
fn scene_dialog_routes() {
    let npc = EntityId { hash: 3 };
    assert_eq!(route_scene_dialog(false, npc, true, true, false), Err(DialogRefusal::UndefinedLine));
    assert_eq!(route_scene_dialog(true, EntityId { hash: 0 }, true, true, false), Err(DialogRefusal::UndefinedEntity));
    assert_eq!(route_scene_dialog(true, npc, false, true, false), Err(DialogRefusal::NoScene));
    assert_eq!(route_scene_dialog(true, npc, true, true, true), Ok(DialogRoute::PlayerVoice));
    assert_eq!(route_scene_dialog(true, npc, true, false, true), Ok(DialogRoute::Holocall));
    assert_eq!(route_scene_dialog(true, npc, true, false, false), Ok(DialogRoute::Actor));
}
