//! Ids of the audio held by the banks.

use vstd::prelude::*;

use crate::bank::key::{key_name, Key};
use crate::manifest::Source;
use crate::names::CName;

verus! {

/// How audio loaded on demand is played: fully decoded, or streamed from
/// its file.
#[derive(Debug)]
pub enum Usage {
    Static(Key, String),
    Streaming(Key, String),
}

/// An audio id whose data exists in the banks and is valid.
#[derive(Debug)]
pub enum Id {
    OnDemand(Usage, Source),
    InMemory(Key, Source),
}

/// A [`Usage`] with its file path as text.
pub enum UsageView {
    Static(Key, Seq<char>),
    Streaming(Key, Seq<char>),
}

/// An [`Id`] with its file path as text.
pub enum IdView {
    OnDemand(UsageView, Source),
    InMemory(Key, Source),
}

impl View for Usage {
    type V = UsageView;

    open spec fn view(&self) -> UsageView {
        match self {
            Usage::Static(k, p) => UsageView::Static(*k, p@),
            Usage::Streaming(k, p) => UsageView::Streaming(*k, p@),
        }
    }
}

impl View for Id {
    type V = IdView;

    open spec fn view(&self) -> IdView {
        match self {
            Id::OnDemand(u, s) => IdView::OnDemand(u@, *s),
            Id::InMemory(k, s) => IdView::InMemory(*k, *s),
        }
    }
}

pub open spec fn usage_key(u: UsageView) -> Key {
    match u {
        UsageView::Static(k, _) => k,
        UsageView::Streaming(k, _) => k,
    }
}

/// The key of an id.
pub open spec fn id_key(i: IdView) -> Key {
    match i {
        IdView::OnDemand(u, _) => usage_key(u),
        IdView::InMemory(k, _) => k,
    }
}

/// The name of an id.
pub open spec fn id_name(i: IdView) -> CName {
    key_name(id_key(i))
}

/// The manifest section of an id.
pub open spec fn id_source(i: IdView) -> Source {
    match i {
        IdView::OnDemand(_, s) => s,
        IdView::InMemory(_, s) => s,
    }
}

/// Voiced audio: onomatopoeia and voices.
pub open spec fn source_is_vocal(s: Source) -> bool {
    s == Source::Ono || s == Source::Voices
}

impl Usage {
    /// The key of the audio.
    pub fn key(&self) -> (r: &Key)
        ensures
            *r == usage_key(self@),
    {
        match self {
            Usage::Static(k, _) => k,
            Usage::Streaming(k, _) => k,
        }
    }

    /// A copy of the usage.
    pub fn duplicate(&self) -> (r: Usage)
        ensures
            r@ == self@,
    {
        match self {
            Usage::Static(k, p) => Usage::Static(*k, p.clone()),
            Usage::Streaming(k, p) => Usage::Streaming(*k, p.clone()),
        }
    }

    /// Whether both usages play the same key from the same path in the same way.
    pub fn same_as(&self, other: &Usage) -> (r: bool)
        ensures
            r == (self@ == other@),
    {
        match (self, other) {
            (Usage::Static(k, p), Usage::Static(k2, p2)) => *k == *k2 && *p == *p2,
            (Usage::Streaming(k, p), Usage::Streaming(k2, p2)) => *k == *k2 && *p == *p2,
            _ => false,
        }
    }
}

impl Id {
    /// The manifest section the audio comes from.
    pub fn source(&self) -> (r: &Source)
        ensures
            *r == id_source(self@),
    {
        match self {
            Id::OnDemand(_, source) => source,
            Id::InMemory(_, source) => source,
        }
    }

    /// Whether the audio is voiced.
    pub fn is_vocal(&self) -> (r: bool)
        ensures
            r == source_is_vocal(id_source(self@)),
            r == (id_source(self@) == Source::Ono || id_source(self@) == Source::Voices),
    {
        match self.source() {
            Source::Ono | Source::Voices => true,
            Source::Sfx | Source::Playlist | Source::Music | Source::Jingle => false,
        }
    }

    /// Whether the audio can be played on an emitter: any audio that is not
    /// voiced.
    pub fn is_emissive(&self) -> (r: bool)
        ensures
            r == !source_is_vocal(id_source(self@)),
            r == (id_source(self@) == Source::Sfx || id_source(self@) == Source::Playlist
                || id_source(self@) == Source::Music || id_source(self@) == Source::Jingle),
    {
        match self.source() {
            Source::Sfx | Source::Playlist | Source::Music | Source::Jingle => true,
            Source::Ono | Source::Voices => false,
        }
    }

    /// The key of the audio.
    pub fn key(&self) -> (r: &Key)
        ensures
            *r == id_key(self@),
    {
        match self {
            Id::OnDemand(usage, _) => usage.key(),
            Id::InMemory(key, _) => key,
        }
    }

    /// The name of the audio.
    pub fn name(&self) -> (r: CName)
        ensures
            r == id_name(self@),
    {
        self.key().name()
    }

    /// A copy of the id.
    pub fn duplicate(&self) -> (r: Id)
        ensures
            r@ == self@,
    {
        match self {
            Id::OnDemand(u, s) => Id::OnDemand(u.duplicate(), *s),
            Id::InMemory(k, s) => Id::InMemory(*k, *s),
        }
    }

    /// Whether both ids are the same.
    pub fn same_as(&self, other: &Id) -> (r: bool)
        ensures
            r == (self@ == other@),
    {
        match (self, other) {
            (Id::OnDemand(u, s), Id::OnDemand(u2, s2)) => u.same_as(u2) && *s == *s2,
            (Id::InMemory(k, s), Id::InMemory(k2, s2)) => *k == *k2 && *s == *s2,
            _ => false,
        }
    }
}

} // verus!
