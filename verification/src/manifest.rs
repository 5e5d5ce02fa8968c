//! Values that mod manifests declare: locales, genders and the kind of
//! audio an entry provides.

use vstd::prelude::*;

verus! {

/// A language of the game.
#[derive(Debug, Clone, Copy, PartialEq, Eq, Hash, Structural)]
pub enum Locale {
    English,
    Polish,
    Spanish,
    French,
    Italian,
    German,
    LatinAmericanSpanish,
    Korean,
    TraditionalChinese,
    Russian,
    BrazilianPortuguese,
    Japanese,
    SimplifiedChinese,
    Arabic,
    Czech,
    Hungarian,
    Turkish,
    Thai,
}

/// The number of locales.
pub open spec fn locale_count() -> u32 {
    18
}

/// The code of a locale: its rank in the list above.
pub open spec fn spec_locale_code(l: Locale) -> u32 {
    match l {
        Locale::English => 0,
        Locale::Polish => 1,
        Locale::Spanish => 2,
        Locale::French => 3,
        Locale::Italian => 4,
        Locale::German => 5,
        Locale::LatinAmericanSpanish => 6,
        Locale::Korean => 7,
        Locale::TraditionalChinese => 8,
        Locale::Russian => 9,
        Locale::BrazilianPortuguese => 10,
        Locale::Japanese => 11,
        Locale::SimplifiedChinese => 12,
        Locale::Arabic => 13,
        Locale::Czech => 14,
        Locale::Hungarian => 15,
        Locale::Turkish => 16,
        Locale::Thai => 17,
    }
}

impl Locale {
    /// The code of the locale.
    pub fn code(&self) -> (r: u32)
        ensures
            r == spec_locale_code(*self),
            r < locale_count(),
    {
        match self {
            Locale::English => 0,
            Locale::Polish => 1,
            Locale::Spanish => 2,
            Locale::French => 3,
            Locale::Italian => 4,
            Locale::German => 5,
            Locale::LatinAmericanSpanish => 6,
            Locale::Korean => 7,
            Locale::TraditionalChinese => 8,
            Locale::Russian => 9,
            Locale::BrazilianPortuguese => 10,
            Locale::Japanese => 11,
            Locale::SimplifiedChinese => 12,
            Locale::Arabic => 13,
            Locale::Czech => 14,
            Locale::Hungarian => 15,
            Locale::Turkish => 16,
            Locale::Thai => 17,
        }
    }

    /// The locale of a code, if the code is one.
    pub fn from_code(code: u32) -> (r: Option<Locale>)
        ensures
            r matches Some(l) ==> spec_locale_code(l) == code,
            r is Some <==> code < locale_count(),
    {
        match code {
            0 => Some(Locale::English),
            1 => Some(Locale::Polish),
            2 => Some(Locale::Spanish),
            3 => Some(Locale::French),
            4 => Some(Locale::Italian),
            5 => Some(Locale::German),
            6 => Some(Locale::LatinAmericanSpanish),
            7 => Some(Locale::Korean),
            8 => Some(Locale::TraditionalChinese),
            9 => Some(Locale::Russian),
            10 => Some(Locale::BrazilianPortuguese),
            11 => Some(Locale::Japanese),
            12 => Some(Locale::SimplifiedChinese),
            13 => Some(Locale::Arabic),
            14 => Some(Locale::Czech),
            15 => Some(Locale::Hungarian),
            16 => Some(Locale::Turkish),
            17 => Some(Locale::Thai),
            _ => None,
        }
    }
}

/// Decoding a locale's code gives the locale back.
pub proof fn law_locale_code_round_trip(l: Locale)
    ensures
        spec_locale_code(l) < locale_count(),
        forall|m: Locale| spec_locale_code(m) == spec_locale_code(l) ==> m == l,
{
}

/// The locale that voices are spoken in.
#[derive(Debug, Clone, Copy, PartialEq, Eq, Hash, Structural)]
pub struct SpokenLocale(pub Locale);

/// The locale that subtitles are written in.
#[derive(Debug, Clone, Copy, PartialEq, Eq, Hash, Structural)]
pub struct WrittenLocale(pub Locale);

/// The gender of the player character.
#[derive(Debug, Clone, Copy, PartialEq, Eq, Hash, Structural)]
pub enum PlayerGender {
    Female,
    Male,
}

/// The manifest section an audio entry comes from.
#[derive(Debug, Clone, Copy, PartialEq, Eq, Hash, Structural)]
pub enum Source {
    Sfx,
    Ono,
    Voices,
    Playlist,
    Music,
    Jingle,
}

} // verus!
