//! Time dilation: which sounds follow it, and how a change is eased in.

use vstd::prelude::*;

use crate::names::{is_reserved, is_reserved_text};

verus! {

/// Sounds that may or may not follow the game's time dilation.
pub trait AffectedByTimeDilation {
    fn affected_by_time_dilation(&self) -> bool;
}

/// Options of a sound played on an emitter.
#[derive(Debug, Clone, Copy, PartialEq, Eq, Structural)]
pub struct EmitterEntryOptions {
    pub affected_by_time_dilation: bool,
}

impl AffectedByTimeDilation for EmitterEntryOptions {
    fn affected_by_time_dilation(&self) -> (r: bool)
        ensures
            r == self.affected_by_time_dilation,
    {
        self.affected_by_time_dilation
    }
}

/// Whether a dilation update applies a dilation or lifts it.
#[derive(Debug, Clone, Copy, PartialEq, Eq, Structural)]
pub enum DilationChange {
    Apply,
    Lift,
}

/// The easing of a dilation change.
#[derive(Debug, Clone, Copy, PartialEq, Eq, Structural)]
pub enum DilationCurve {
    Linear,
    EaseIn,
    EaseOut,
}

/// Whether a curve is named: its name is neither empty nor `None`.
pub fn has_curve(curve: &str) -> (r: bool)
    ensures
        r == !is_reserved_text(curve@),
{
    !is_reserved(curve)
}

/// The easing of a change: linear without a named curve, else easing in
/// when a dilation is applied and out when it is lifted.
pub fn tween_curve(change: DilationChange, curve: &str) -> (r: DilationCurve)
    ensures
        is_reserved_text(curve@) ==> r == DilationCurve::Linear,
        !is_reserved_text(curve@) && change == DilationChange::Apply ==> r == DilationCurve::EaseIn,
        !is_reserved_text(curve@) && change == DilationChange::Lift ==> r == DilationCurve::EaseOut,
{
    if !has_curve(curve) {
        DilationCurve::Linear
    } else {
        match change {
            DilationChange::Apply => DilationCurve::EaseIn,
            DilationChange::Lift => DilationCurve::EaseOut,
        }
    }
}

} // verus!
