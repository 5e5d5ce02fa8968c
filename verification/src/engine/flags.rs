//! The engine loop's state flags.

use vstd::prelude::*;

verus! {

/// What the flags say, one boolean per flag.
#[derive(Debug, Clone, Copy, PartialEq, Eq, Structural)]
pub struct FlagsView {
    pub loading: bool,
    pub in_menu: bool,
    pub in_game: bool,
    pub paused: bool,
    pub focused: bool,
    pub mute_in_background: bool,
}

/// State of the engine loop, as a set of bit flags.
#[derive(Debug, Clone, Copy, PartialEq, Eq, Structural)]
pub struct Flags {
    pub bits: u8,
}

pub open spec fn bit_set(bits: u8, mask: u8) -> bool {
    bits & mask != 0
}

/// `a` with every flag of `b` set to `value`, the others kept.
pub open spec fn view_set(a: FlagsView, b: FlagsView, value: bool) -> FlagsView {
    FlagsView {
        loading: if b.loading { value } else { a.loading },
        in_menu: if b.in_menu { value } else { a.in_menu },
        in_game: if b.in_game { value } else { a.in_game },
        paused: if b.paused { value } else { a.paused },
        focused: if b.focused { value } else { a.focused },
        mute_in_background: if b.mute_in_background { value } else { a.mute_in_background },
    }
}

/// Every flag of `b` is set in `a`.
pub open spec fn view_contains(a: FlagsView, b: FlagsView) -> bool {
    &&& b.loading ==> a.loading
    &&& b.in_menu ==> a.in_menu
    &&& b.in_game ==> a.in_game
    &&& b.paused ==> a.paused
    &&& b.focused ==> a.focused
    &&& b.mute_in_background ==> a.mute_in_background
}

/// Some flag of `b` is set in `a`.
pub open spec fn view_intersects(a: FlagsView, b: FlagsView) -> bool {
    ||| b.loading && a.loading
    ||| b.in_menu && a.in_menu
    ||| b.in_game && a.in_game
    ||| b.paused && a.paused
    ||| b.focused && a.focused
    ||| b.mute_in_background && a.mute_in_background
}

pub open spec fn only(loading: bool, in_menu: bool, in_game: bool, paused: bool, focused: bool, mute: bool) -> FlagsView {
    FlagsView { loading, in_menu, in_game, paused, focused, mute_in_background: mute }
}

proof fn lemma_or_bits(a: u8, b: u8)
    by (bit_vector)
    ensures
        a < 64 && b < 64 ==> (a | b) < 64,
        ((a | b) & 1 != 0) == (a & 1 != 0 || b & 1 != 0),
        ((a | b) & 2 != 0) == (a & 2 != 0 || b & 2 != 0),
        ((a | b) & 4 != 0) == (a & 4 != 0 || b & 4 != 0),
        ((a | b) & 8 != 0) == (a & 8 != 0 || b & 8 != 0),
        ((a | b) & 16 != 0) == (a & 16 != 0 || b & 16 != 0),
        ((a | b) & 32 != 0) == (a & 32 != 0 || b & 32 != 0),
{
}

proof fn lemma_and_not_bits(a: u8, b: u8)
    by (bit_vector)
    ensures
        a < 64 ==> (a & !b) < 64,
        ((a & !b) & 1 != 0) == (a & 1 != 0 && b & 1 == 0),
        ((a & !b) & 2 != 0) == (a & 2 != 0 && b & 2 == 0),
        ((a & !b) & 4 != 0) == (a & 4 != 0 && b & 4 == 0),
        ((a & !b) & 8 != 0) == (a & 8 != 0 && b & 8 == 0),
        ((a & !b) & 16 != 0) == (a & 16 != 0 && b & 16 == 0),
        ((a & !b) & 32 != 0) == (a & 32 != 0 && b & 32 == 0),
{
}

impl View for Flags {
    type V = FlagsView;

    open spec fn view(&self) -> FlagsView {
        FlagsView {
            loading: bit_set(self.bits, 1),
            in_menu: bit_set(self.bits, 2),
            in_game: bit_set(self.bits, 4),
            paused: bit_set(self.bits, 8),
            focused: bit_set(self.bits, 16),
            mute_in_background: bit_set(self.bits, 32),
        }
    }
}

impl Flags {
    /// Only the known flags are set.
    pub open spec fn wf(self) -> bool {
        self.bits < 64
    }

    pub fn empty() -> (r: Flags)
        ensures
            r@ == only(false, false, false, false, false, false),
            r.wf(),
    {
        let r = Flags { bits: 0 };
        assert(r@ == only(false, false, false, false, false, false)) by {
            assert(0u8 & 1 == 0 && 0u8 & 2 == 0 && 0u8 & 4 == 0 && 0u8 & 8 == 0 && 0u8 & 16 == 0
                && 0u8 & 32 == 0) by (bit_vector);
        }
        r
    }

    fn single(bits: u8) -> (r: Flags)
        requires
            bits == 1 || bits == 2 || bits == 4 || bits == 8 || bits == 16 || bits == 32,
        ensures
            r.bits == bits,
            r.wf(),
            r@ == only(bits == 1, bits == 2, bits == 4, bits == 8, bits == 16, bits == 32),
    {
        let r = Flags { bits };
        assert(r@ == only(bits == 1, bits == 2, bits == 4, bits == 8, bits == 16, bits == 32)) by {
            assert((bits == 1 || bits == 2 || bits == 4 || bits == 8 || bits == 16 || bits == 32)
                ==> ((bits & 1 != 0) == (bits == 1) && (bits & 2 != 0) == (bits == 2) && (bits & 4
                != 0) == (bits == 4) && (bits & 8 != 0) == (bits == 8) && (bits & 16 != 0) == (
            bits == 16) && (bits & 32 != 0) == (bits == 32))) by (bit_vector);
        }
        r
    }

    pub fn loading() -> (r: Flags)
        ensures
            r@ == only(true, false, false, false, false, false),
            r.wf(),
    {
        Self::single(1)
    }

    pub fn in_menu() -> (r: Flags)
        ensures
            r@ == only(false, true, false, false, false, false),
            r.wf(),
    {
        Self::single(2)
    }

    pub fn in_game() -> (r: Flags)
        ensures
            r@ == only(false, false, true, false, false, false),
            r.wf(),
    {
        Self::single(4)
    }

    pub fn paused() -> (r: Flags)
        ensures
            r@ == only(false, false, false, true, false, false),
            r.wf(),
    {
        Self::single(8)
    }

    pub fn focused() -> (r: Flags)
        ensures
            r@ == only(false, false, false, false, true, false),
            r.wf(),
    {
        Self::single(16)
    }

    pub fn mute_in_background() -> (r: Flags)
        ensures
            r@ == only(false, false, false, false, false, true),
            r.wf(),
    {
        Self::single(32)
    }

    /// All flags of both.
    pub fn union(self, other: Flags) -> (r: Flags)
        requires
            self.wf(),
            other.wf(),
        ensures
            r.wf(),
            r@ == view_set(self@, other@, true),
    {
        let a = self.bits;
        let b = other.bits;
        let c = a | b;
        proof { lemma_or_bits(a, b); }
        Flags { bits: c }
    }

    /// Whether every flag of `other` is set.
    pub fn contains(&self, other: Flags) -> (r: bool)
        ensures
            r == (self.bits & other.bits == other.bits),
            other.wf() ==> r == view_contains(self@, other@),
    {
        let a = self.bits;
        let b = other.bits;
        let r = a & b == b;
        assert(b < 64 ==> ((a & b == b) == ((b & 1 != 0 ==> a & 1 != 0) && (b & 2 != 0 ==> a & 2
            != 0) && (b & 4 != 0 ==> a & 4 != 0) && (b & 8 != 0 ==> a & 8 != 0) && (b & 16 != 0
            ==> a & 16 != 0) && (b & 32 != 0 ==> a & 32 != 0)))) by (bit_vector);
        r
    }

    /// Whether some flag of `other` is set.
    pub fn intersects(&self, other: Flags) -> (r: bool)
        ensures
            r == (self.bits & other.bits != 0),
            other.wf() ==> r == view_intersects(self@, other@),
    {
        let a = self.bits;
        let b = other.bits;
        let r = a & b != 0;
        assert(b < 64 ==> ((a & b != 0) == ((b & 1 != 0 && a & 1 != 0) || (b & 2 != 0 && a & 2
            != 0) || (b & 4 != 0 && a & 4 != 0) || (b & 8 != 0 && a & 8 != 0) || (b & 16 != 0
            && a & 16 != 0) || (b & 32 != 0 && a & 32 != 0)))) by (bit_vector);
        r
    }

    /// Sets (or clears, when `value` is false) every flag of `other`.
    pub fn set(&mut self, other: Flags, value: bool)
        requires
            old(self).wf(),
            other.wf(),
        ensures
            final(self).wf(),
            final(self)@ == view_set(old(self)@, other@, value),
    {
        let a = self.bits;
        let b = other.bits;
        if value {
            proof { lemma_or_bits(a, b); }
            self.bits = a | b;
        } else {
            proof { lemma_and_not_bits(a, b); }
            self.bits = a & !b;
        }
    }

    /// The scene is kept in sync with the game only while in game,
    /// neither loading, nor in a menu, nor paused.
    pub fn should_sync(&self) -> (r: bool)
        ensures
            r == (self@.in_game && !self@.loading && !self@.in_menu && !self@.paused),
    {
        let blockers = Flags::loading().union(Flags::in_menu()).union(Flags::paused());
        self.contains(Flags::in_game()) && !self.intersects(blockers)
    }
}

} // verus!
