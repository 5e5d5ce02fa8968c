//! Audio data, as loaded or modified since.

use vstd::prelude::*;

verus! {

/// Consumes `T`, absorbing its data.
pub trait With<T> {
    /// The value once `settings` are absorbed.
    spec fn absorbed(self, settings: T) -> Self where Self: Sized;

    fn with(self, settings: T) -> (r: Self) where Self: Sized
        ensures
            r == self.absorbed(settings),
    ;
}

impl<T, U> With<Option<U>> for T where T: With<U> {
    /// Given settings are absorbed; none leave the value as it is.
    open spec fn absorbed(self, settings: Option<U>) -> T {
        match settings {
            Some(s) => <T as With<U>>::absorbed(self, s),
            None => self,
        }
    }

    /// Consumes `T`, absorbing the settings if any.
    fn with(self, settings: Option<U>) -> T {
        match settings {
            Some(s) => <T as With<U>>::with(self, s),
            None => self,
        }
    }
}

/// Any audio whose sample rate is known.
pub trait SampleRate {
    fn sample_rate(&self) -> u32;
}

/// Audio data: as loaded, or modified since.
#[derive(Debug, Clone)]
pub enum Data<T> {
    Vanilla(T),
    Modified(T),
}

/// The audio inside.
pub open spec fn data_inner<T>(d: Data<T>) -> T {
    match d {
        Data::Vanilla(x) => x,
        Data::Modified(x) => x,
    }
}

impl<T> Data<T> {
    /// Data as loaded.
    pub fn new(inner: T) -> (r: Data<T>)
        ensures
            r == Data::Vanilla(inner),
    {
        Data::Vanilla(inner)
    }
}

impl<T: SampleRate> SampleRate for Data<T> {
    /// The sample rate of the audio inside.
    fn sample_rate(&self) -> (r: u32)
        ensures
            call_ensures(T::sample_rate, (&data_inner(*self),), r),
    {
        match self {
            Data::Vanilla(data) => data.sample_rate(),
            Data::Modified(data) => data.sample_rate(),
        }
    }
}

} // verus!
