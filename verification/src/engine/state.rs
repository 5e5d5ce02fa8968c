//! The player's settings that the engine follows: spoken and written
//! locales, and the player character's gender.

use vstd::prelude::*;

use crate::manifest::{self as manifest, spec_locale_code, Locale};

verus! {

/// The locale stored under `code`, English for a code that is none.
pub open spec fn decode_locale(code: u32) -> Locale {
    if code == 0 { Locale::English }
    else if code == 1 { Locale::Polish }
    else if code == 2 { Locale::Spanish }
    else if code == 3 { Locale::French }
    else if code == 4 { Locale::Italian }
    else if code == 5 { Locale::German }
    else if code == 6 { Locale::LatinAmericanSpanish }
    else if code == 7 { Locale::Korean }
    else if code == 8 { Locale::TraditionalChinese }
    else if code == 9 { Locale::Russian }
    else if code == 10 { Locale::BrazilianPortuguese }
    else if code == 11 { Locale::Japanese }
    else if code == 12 { Locale::SimplifiedChinese }
    else if code == 13 { Locale::Arabic }
    else if code == 14 { Locale::Czech }
    else if code == 15 { Locale::Hungarian }
    else if code == 16 { Locale::Turkish }
    else if code == 17 { Locale::Thai }
    else { Locale::English }
}

/// Decoding the code of a locale gives it back.
pub proof fn lemma_decode_locale(l: Locale)
    ensures
        decode_locale(spec_locale_code(l)) == l,
{
}

/// Reads a locale back from its code, English for a code that is none.
fn locale_of_code(code: u32) -> (r: Locale)
    ensures
        r == decode_locale(code),
{
    match Locale::from_code(code) {
        Some(l) => l,
        None => Locale::English,
    }
}

/// The locale that voices are spoken in, stored as its code.
pub struct SpokenLocale {
    code: u32,
}

impl View for SpokenLocale {
    type V = Locale;

    closed spec fn view(&self) -> Locale {
        decode_locale(self.code)
    }
}

impl SpokenLocale {
    /// English, until set.
    pub fn new() -> (r: SpokenLocale)
        ensures
            r@ == Locale::English,
    {
        SpokenLocale { code: 0 }
    }

    pub fn set(&mut self, value: Locale)
        ensures
            final(self)@ == value,
    {
        proof {
            lemma_decode_locale(value);
        }
        self.code = value.code();
    }

    pub fn get(&self) -> (r: manifest::SpokenLocale)
        ensures
            r == manifest::SpokenLocale(self@),
    {
        manifest::SpokenLocale(locale_of_code(self.code))
    }
}

/// The locale that subtitles are written in, stored as its code.
pub struct WrittenLocale {
    code: u32,
}

impl View for WrittenLocale {
    type V = Locale;

    closed spec fn view(&self) -> Locale {
        decode_locale(self.code)
    }
}

impl WrittenLocale {
    /// English, until set.
    pub fn new() -> (r: WrittenLocale)
        ensures
            r@ == Locale::English,
    {
        WrittenLocale { code: 0 }
    }

    pub fn set(&mut self, value: Locale)
        ensures
            final(self)@ == value,
    {
        proof {
            lemma_decode_locale(value);
        }
        self.code = value.code();
    }

    pub fn get(&self) -> (r: manifest::WrittenLocale)
        ensures
            r == manifest::WrittenLocale(self@),
    {
        manifest::WrittenLocale(locale_of_code(self.code))
    }
}

/// The gender stored under `code`: 0 and 1, none for any other.
pub open spec fn decode_gender(code: u8) -> Option<manifest::PlayerGender> {
    if code == 0 {
        Some(manifest::PlayerGender::Female)
    } else if code == 1 {
        Some(manifest::PlayerGender::Male)
    } else {
        None
    }
}

/// The gender of the player character, stored as a code; none until the
/// player is known.
pub struct PlayerGender {
    code: u8,
}

impl View for PlayerGender {
    type V = Option<manifest::PlayerGender>;

    closed spec fn view(&self) -> Option<manifest::PlayerGender> {
        decode_gender(self.code)
    }
}

impl PlayerGender {
    /// No gender, until set.
    pub fn new() -> (r: PlayerGender)
        ensures
            r@ is None,
    {
        PlayerGender { code: 2 }
    }

    pub fn set(&mut self, gender: manifest::PlayerGender)
        ensures
            final(self)@ == Some(gender),
    {
        self.code = match gender {
            manifest::PlayerGender::Female => 0,
            manifest::PlayerGender::Male => 1,
        };
    }

    /// Forgets the gender.
    pub fn unset(&mut self)
        ensures
            final(self)@ is None,
    {
        self.code = 2;
    }

    pub fn get(&self) -> (r: Option<manifest::PlayerGender>)
        ensures
            r == self@,
    {
        match self.code {
            0 => Some(manifest::PlayerGender::Female),
            1 => Some(manifest::PlayerGender::Male),
            _ => None,
        }
    }
}

} // verus!
