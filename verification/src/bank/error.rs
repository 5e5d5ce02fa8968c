//! Errors of the banks.

use vstd::prelude::*;

use crate::bank::id::{Id, IdView};
use crate::bank::key::Key;
use crate::manifest::SpokenLocale;
use crate::names::CName;

verus! {

/// A lookup that the banks cannot answer.
#[derive(Debug, Clone, Copy, PartialEq, Eq, Structural)]
pub enum RegistryError {
    /// The audio exists for the name, but not in the spoken locale.
    MissingSpokenLocale { cname: CName, locale: SpokenLocale },
    /// The audio exists per player gender, and none was given.
    RequireGender { cname: CName },
    /// No audio exists for the name.
    NotFound { cname: CName },
}

/// An entry of a manifest that the banks refuse.
#[derive(Debug)]
pub enum ValidationError {
    /// The same mod folder exists in both depots.
    DuplicateAcrossDepots { folder: String },
    /// The name is known to the game already.
    NonUniqueKey { cname: String },
    /// A manifest declares the same key twice, or the name is held by
    /// another kind of key.
    ConflictingKey { cname: String },
    /// The key cannot be made a name: it holds a NUL character.
    InvalidAudioID,
    /// The audio file cannot be loaded.
    InvalidAudio { path: String },
    /// Audio data is already stored under the key.
    CannotStoreData { key: Key, path: String },
    /// A subtitle is already stored under the key.
    CannotStoreSubtitle,
    /// Audio settings are already stored under the key.
    CannotStoreSettings,
    /// The id is already stored.
    CannotStoreAgnosticId { id: Id },
}

/// Any error of the banks.
#[derive(Debug)]
#[allow(inconsistent_fields)]
pub enum Error {
    Registry { source: RegistryError },
    Validation { source: ValidationError },
}

/// An error of the banks, its texts as sequences of characters.
pub enum ErrorView {
    Registry(RegistryError),
    DuplicateAcrossDepots(Seq<char>),
    NonUniqueKey(Seq<char>),
    ConflictingKey(Seq<char>),
    InvalidAudioId,
    InvalidAudio(Seq<char>),
    CannotStoreData(Key, Seq<char>),
    CannotStoreSubtitle,
    CannotStoreSettings,
    CannotStoreAgnosticId(IdView),
}

impl View for ValidationError {
    type V = ErrorView;

    open spec fn view(&self) -> ErrorView {
        match self {
            ValidationError::DuplicateAcrossDepots { folder } => ErrorView::DuplicateAcrossDepots(folder@),
            ValidationError::NonUniqueKey { cname } => ErrorView::NonUniqueKey(cname@),
            ValidationError::ConflictingKey { cname } => ErrorView::ConflictingKey(cname@),
            ValidationError::InvalidAudioID => ErrorView::InvalidAudioId,
            ValidationError::InvalidAudio { path } => ErrorView::InvalidAudio(path@),
            ValidationError::CannotStoreData { key, path } => ErrorView::CannotStoreData(*key, path@),
            ValidationError::CannotStoreSubtitle => ErrorView::CannotStoreSubtitle,
            ValidationError::CannotStoreSettings => ErrorView::CannotStoreSettings,
            ValidationError::CannotStoreAgnosticId { id } => ErrorView::CannotStoreAgnosticId(id@),
        }
    }
}

impl View for Error {
    type V = ErrorView;

    open spec fn view(&self) -> ErrorView {
        match self {
            Error::Registry { source } => ErrorView::Registry(*source),
            Error::Validation { source } => source@,
        }
    }
}

/// The errors of a list, as texts.
pub open spec fn errors_view(v: Seq<Error>) -> Seq<ErrorView> {
    v.map_values(|e: Error| e@)
}

} // verus!
