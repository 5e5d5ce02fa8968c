//! Keys under which the banks store audio: by name alone, or by name and
//! player gender, spoken locale, or both.

use vstd::prelude::*;

use crate::manifest::{Locale, PlayerGender};
use crate::names::CName;

verus! {

/// Audio that exists once for its name.
#[derive(Debug, Clone, Copy, PartialEq, Eq, Hash, Structural)]
pub struct UniqueKey(pub CName);

/// Audio that exists once per player gender.
#[derive(Debug, Clone, Copy, PartialEq, Eq, Hash, Structural)]
pub struct GenderKey(pub CName, pub PlayerGender);

/// Audio that exists once per spoken locale.
#[derive(Debug, Clone, Copy, PartialEq, Eq, Hash, Structural)]
pub struct LocaleKey(pub CName, pub Locale);

/// Audio that exists once per spoken locale and player gender.
#[derive(Debug, Clone, Copy, PartialEq, Eq, Hash, Structural)]
pub struct BothKey(pub CName, pub Locale, pub PlayerGender);

/// Any key.
#[derive(Debug, Clone, Copy, PartialEq, Eq, Hash, Structural)]
pub enum Key {
    Unique(UniqueKey),
    Gender(GenderKey),
    Locale(LocaleKey),
    Both(BothKey),
}

/// The name a key stands for.
pub open spec fn key_name(k: Key) -> CName {
    match k {
        Key::Unique(UniqueKey(n)) => n,
        Key::Gender(GenderKey(n, _)) => n,
        Key::Locale(LocaleKey(n, _)) => n,
        Key::Both(BothKey(n, _, _)) => n,
    }
}

impl Key {
    /// The name the key stands for.
    pub fn name(&self) -> (r: CName)
        ensures
            r == key_name(*self),
    {
        match self {
            Key::Unique(UniqueKey(n)) => *n,
            Key::Gender(GenderKey(n, _)) => *n,
            Key::Locale(LocaleKey(n, _)) => *n,
            Key::Both(BothKey(n, _, _)) => *n,
        }
    }

    pub fn as_unique(&self) -> (r: Option<&UniqueKey>)
        ensures
            r matches Some(k) ==> *self == Key::Unique(*k),
            r is Some <==> *self is Unique,
    {
        match self {
            Key::Unique(k) => Some(k),
            _ => None,
        }
    }

    pub fn as_gender(&self) -> (r: Option<&GenderKey>)
        ensures
            r matches Some(k) ==> *self == Key::Gender(*k),
            r is Some <==> *self is Gender,
    {
        match self {
            Key::Gender(k) => Some(k),
            _ => None,
        }
    }

    pub fn as_locale(&self) -> (r: Option<&LocaleKey>)
        ensures
            r matches Some(k) ==> *self == Key::Locale(*k),
            r is Some <==> *self is Locale,
    {
        match self {
            Key::Locale(k) => Some(k),
            _ => None,
        }
    }

    pub fn as_both(&self) -> (r: Option<&BothKey>)
        ensures
            r matches Some(k) ==> *self == Key::Both(*k),
            r is Some <==> *self is Both,
    {
        match self {
            Key::Both(k) => Some(k),
            _ => None,
        }
    }
}

} // verus!
