//! Where a sound plays, and what follows its playing: the track it goes to
//! and whether its subtitles are sent to the game.

use vstd::prelude::*;

use crate::bank::error::Error;
use crate::bank::id::{id_source, source_is_vocal, Id, IdView};
use crate::bank::registry::{any_named, gender_view, lookup, Banks};
use crate::manifest::{PlayerGender, Source, SpokenLocale};
use crate::names::{is_reserved, is_reserved_text, CName, EntityId};

verus! {

/// The tracks that sounds play on.
#[derive(Debug, Clone, Copy, PartialEq, Eq, Structural)]
pub enum Track {
    Sfx,
    Dialogue,
    Radioport,
    Music,
    CarRadio,
    Holocall,
    /// The player character's own voice.
    VVocal,
    /// Other sounds the player character makes.
    VEmissive,
}

/// The track of each manifest section.
pub open spec fn track_of_source(s: Source) -> Track {
    match s {
        Source::Sfx => Track::Sfx,
        Source::Ono => Track::Sfx,
        Source::Voices => Track::Dialogue,
        Source::Playlist => Track::Radioport,
        Source::Music => Track::Music,
        Source::Jingle => Track::CarRadio,
    }
}

/// The track of a sound: on the player character, its voice or its other
/// sounds; elsewhere, the track of its manifest section.
pub open spec fn spec_destination(i: IdView, on_player: bool) -> Track {
    if on_player {
        if source_is_vocal(id_source(i)) { Track::VVocal } else { Track::VEmissive }
    } else {
        track_of_source(id_source(i))
    }
}

/// On the player character, onomatopoeia and voices go to its voice track,
/// and audio of every other section to its track of other sounds; elsewhere
/// each section has its own track, voices the dialogue track.
pub proof fn law_player_tracks_per_section(i: IdView)
    ensures
        id_source(i) == Source::Ono ==> spec_destination(i, true) == Track::VVocal,
        id_source(i) == Source::Voices ==> spec_destination(i, true) == Track::VVocal,
        id_source(i) == Source::Sfx ==> spec_destination(i, true) == Track::VEmissive,
        id_source(i) == Source::Playlist ==> spec_destination(i, true) == Track::VEmissive,
        id_source(i) == Source::Music ==> spec_destination(i, true) == Track::VEmissive,
        id_source(i) == Source::Jingle ==> spec_destination(i, true) == Track::VEmissive,
        id_source(i) == Source::Ono ==> spec_destination(i, false) == Track::Sfx,
        id_source(i) == Source::Voices ==> spec_destination(i, false) == Track::Dialogue,
{
}

/// The track of the manifest section the audio comes from.
pub fn to_output_destination(id: &Id) -> (r: Track)
    ensures
        r == track_of_source(id_source(id@)),
{
    match id.source() {
        Source::Sfx | Source::Ono => Track::Sfx,
        Source::Voices => Track::Dialogue,
        Source::Playlist => Track::Radioport,
        Source::Music => Track::Music,
        Source::Jingle => Track::CarRadio,
    }
}

/// The track a sound plays on; `on_player` tells whether it plays on the
/// player character.
pub fn destination(id: &Id, on_player: bool) -> (r: Track)
    ensures
        r == spec_destination(id@, on_player),
{
    if on_player {
        if id.is_vocal() {
            Track::VVocal
        } else {
            Track::VEmissive
        }
    } else {
        to_output_destination(id)
    }
}

/// What follows a sound's playing for its subtitles.
#[derive(Debug, Clone, Copy, PartialEq, Eq, Structural)]
pub enum Subtitles {
    /// Send them to the game.
    Propagate,
    /// A voice cannot have its subtitles shown: warn.
    Warn,
    Nothing,
}

/// Subtitles are sent when both the entity and the emitter name are known;
/// for a voice without them, a warning is due.
pub open spec fn spec_subtitles(known: bool, source: Source) -> Subtitles {
    if known {
        Subtitles::Propagate
    } else if source == Source::Voices {
        Subtitles::Warn
    } else {
        Subtitles::Nothing
    }
}

/// The subtitles of a sound played on an entity.
pub fn subtitles_for(has_entity: bool, has_emitter_name: bool, source: Source) -> (r: Subtitles)
    ensures
        r == spec_subtitles(has_entity && has_emitter_name, source),
{
    if has_entity && has_emitter_name {
        Subtitles::Propagate
    } else if source == Source::Voices {
        Subtitles::Warn
    } else {
        Subtitles::Nothing
    }
}

/// The subtitles of a sound played over the phone: sent when the caller's
/// name reads as a name.
pub fn subtitles_over_the_phone(emitter_name: &str, source: Source) -> (r: Subtitles)
    ensures
        r == spec_subtitles(!is_reserved_text(emitter_name@), source),
{
    subtitles_for(true, !is_reserved(emitter_name), source)
}

/// What is kept with the handle of a played sound: the event it plays, the
/// entity and emitter it plays on, and whether time dilation affects it.
#[derive(Debug, Clone, Copy, PartialEq, Eq, Structural)]
pub struct TrackEntry {
    pub event_name: CName,
    pub entity_id: Option<EntityId>,
    pub emitter_name: Option<CName>,
    pub affected_by_time_dilation: bool,
}

/// How a sound is played once found in the banks: its id, its track, what
/// is kept with its handle, and what becomes of its subtitles.
pub struct PlayPlan {
    pub id: Id,
    pub track: Track,
    pub record: TrackEntry,
    pub subtitles: Subtitles,
}

/// Plans the playing of `event_name` on `entity_id`, if any, under
/// `emitter_name`, if any: looks it up in the banks for the spoken locale
/// and the gender of the entity, picks its track, keeps the event, entity
/// and emitter with its handle, with whether it follows time dilation
/// (unless its settings tell, it does), and says what becomes of its
/// subtitles: sent when both the entity and the emitter name are known.
pub fn plan_play(
    banks: &Banks,
    event_name: &CName,
    spoken: &SpokenLocale,
    gender: Option<&PlayerGender>,
    on_player: bool,
    entity_id: Option<EntityId>,
    emitter_name: Option<CName>,
    dilatable: Option<bool>,
) -> (r: Result<PlayPlan, Error>)
    ensures
        match lookup(banks.ids@, *event_name, *spoken, gender_view(gender)) {
            Ok(v) => r matches Ok(p) && p.id@ == v
                && p.track == spec_destination(v, on_player)
                && p.subtitles == spec_subtitles(entity_id is Some && emitter_name is Some, id_source(v))
                && p.record == (TrackEntry {
                    event_name: *event_name,
                    entity_id,
                    emitter_name,
                    affected_by_time_dilation: match dilatable {
                        Some(d) => d,
                        None => true,
                    },
                }),
            Err(e) => r == Err::<PlayPlan, Error>(Error::Registry { source: e }),
        },
{
    let found = banks.try_get(event_name, spoken, gender);
    match found {
        Ok(id) => {
            let p = PlayPlan {
                id: id.duplicate(),
                track: destination(id, on_player),
                record: TrackEntry {
                    event_name: *event_name,
                    entity_id,
                    emitter_name,
                    affected_by_time_dilation: match dilatable {
                        Some(d) => d,
                        None => true,
                    },
                },
                subtitles: subtitles_for(entity_id.is_some(), emitter_name.is_some(), *id.source()),
            };
            Ok(p)
        },
        Err(e) => Err(e),
    }
}

/// Plans a call: `event_name` is looked up for the spoken locale and the
/// player's gender and plays on the phone's track, its handle kept with no
/// entity, the caller's name `emitter_name` and time dilation; its
/// subtitles are sent when the caller's name, read as `emitter_text`, is a
/// name.
pub fn plan_play_over_the_phone(
    banks: &Banks,
    event_name: &CName,
    emitter_name: &CName,
    emitter_text: &str,
    spoken: &SpokenLocale,
    gender: &PlayerGender,
) -> (r: Result<PlayPlan, Error>)
    ensures
        match lookup(banks.ids@, *event_name, *spoken, Some(*gender)) {
            Ok(v) => r matches Ok(p) && p.id@ == v
                && p.track == Track::Holocall
                && p.subtitles == spec_subtitles(!is_reserved_text(emitter_text@), id_source(v))
                && p.record == (TrackEntry {
                    event_name: *event_name,
                    entity_id: None,
                    emitter_name: Some(*emitter_name),
                    affected_by_time_dilation: true,
                }),
            Err(e) => r == Err::<PlayPlan, Error>(Error::Registry { source: e }),
        },
{
    let found = banks.try_get(event_name, spoken, Some(gender));
    match found {
        Ok(id) => {
            let p = PlayPlan {
                id: id.duplicate(),
                track: Track::Holocall,
                record: TrackEntry {
                    event_name: *event_name,
                    entity_id: None,
                    emitter_name: Some(*emitter_name),
                    affected_by_time_dilation: true,
                },
                subtitles: subtitles_over_the_phone(emitter_text, *id.source()),
            };
            Ok(p)
        },
        Err(e) => Err(e),
    }
}

/// How a switch from one sound to another is carried out: each side by the
/// banks when they hold it, else by the game's own audio system.
pub fn plan_switch(banks: &Banks, switch_name: &CName, switch_value: &CName) -> (r: (bool, bool))
    ensures
        r.0 == (switch_name.spec_is_defined() && any_named(banks.ids@, *switch_name)),
        r.1 == (switch_value.spec_is_defined() && any_named(banks.ids@, *switch_value)),
{
    (banks.exists_audio(switch_name), banks.exists_audio(switch_value))
}

/// Where a line of a scene dialog plays.
#[derive(Debug, Clone, Copy, PartialEq, Eq, Structural)]
pub enum DialogRoute {
    /// The player character's voice track.
    PlayerVoice,
    /// The phone.
    Holocall,
    /// The actor's own emitter.
    Actor,
}

/// Why a line of a scene dialog is not played.
#[derive(Debug, Clone, Copy, PartialEq, Eq, Structural)]
pub enum DialogRefusal {
    UndefinedLine,
    UndefinedEntity,
    NoScene,
}

/// Where a line of a scene dialog plays: a line or an entity that is
/// undefined, or the lack of a scene, refuses it, in that order; the
/// player's lines go to the voice track, calls to the phone, and the other
/// lines to their actor.
pub fn route_scene_dialog(
    line_defined: bool,
    entity_id: EntityId,
    scene_available: bool,
    is_player: bool,
    is_holocall: bool,
) -> (r: Result<DialogRoute, DialogRefusal>)
    ensures
        !line_defined ==> r == Err::<DialogRoute, DialogRefusal>(DialogRefusal::UndefinedLine),
        line_defined && !entity_id.spec_is_defined() ==> r == Err::<DialogRoute, DialogRefusal>(DialogRefusal::UndefinedEntity),
        line_defined && entity_id.spec_is_defined() && !scene_available ==> r == Err::<DialogRoute, DialogRefusal>(
            DialogRefusal::NoScene,
        ),
        line_defined && entity_id.spec_is_defined() && scene_available ==> r == Ok::<DialogRoute, DialogRefusal>(
            if is_player {
                DialogRoute::PlayerVoice
            } else if is_holocall {
                DialogRoute::Holocall
            } else {
                DialogRoute::Actor
            },
        ),
{
    if !line_defined {
        return Err(DialogRefusal::UndefinedLine);
    }
    if !entity_id.is_defined() {
        return Err(DialogRefusal::UndefinedEntity);
    }
    if !scene_available {
        return Err(DialogRefusal::NoScene);
    }
    if is_player {
        Ok(DialogRoute::PlayerVoice)
    } else if is_holocall {
        Ok(DialogRoute::Holocall)
    } else {
        Ok(DialogRoute::Actor)
    }
}

} // verus!
