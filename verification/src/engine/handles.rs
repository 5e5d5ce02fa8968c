//! The handles of the sounds playing on an emitter, each kept with the
//! event it plays and whether time dilation affects it: which to stop for
//! an event, which follow time dilation, and which to let go once stopped.

use vstd::prelude::*;

use crate::names::CName;

verus! {

/// A playing sound: the event it plays, its handle, and whether time
/// dilation affects it.
pub struct SoundHandle<H> {
    pub event_name: CName,
    pub handle: H,
    pub affected_by_time_dilation: bool,
}

/// The positions, in order, of the sounds that play `event_name`.
pub open spec fn event_positions<H>(s: Seq<SoundHandle<H>>, event_name: CName) -> Seq<usize>
    decreases s.len(),
{
    if s.len() == 0 {
        Seq::empty()
    } else {
        let r = event_positions(s.drop_last(), event_name);
        if s.last().event_name == event_name {
            r.push((s.len() - 1) as usize)
        } else {
            r
        }
    }
}

/// The positions, in order, of the sounds that time dilation affects.
pub open spec fn dilated_positions<H>(s: Seq<SoundHandle<H>>) -> Seq<usize>
    decreases s.len(),
{
    if s.len() == 0 {
        Seq::empty()
    } else {
        let r = dilated_positions(s.drop_last());
        if s.last().affected_by_time_dilation {
            r.push((s.len() - 1) as usize)
        } else {
            r
        }
    }
}

/// The sounds, in order, that are not stopped.
pub open spec fn unstopped<H>(s: Seq<SoundHandle<H>>, stopped: Seq<bool>) -> Seq<SoundHandle<H>>
    decreases s.len(),
{
    if s.len() == 0 {
        Seq::empty()
    } else {
        let r = unstopped(s.drop_last(), stopped);
        if stopped[s.len() - 1] {
            r
        } else {
            r.push(s.last())
        }
    }
}

/// The sounds playing on an emitter.
pub struct Handles<H> {
    sounds: Vec<SoundHandle<H>>,
}

impl<H> Handles<H> {
    /// The sounds, in the order they were stored.
    pub closed spec fn sounds(&self) -> Seq<SoundHandle<H>> {
        self.sounds@
    }

    /// No sound.
    pub fn new() -> (r: Handles<H>)
        ensures
            r.sounds() == Seq::<SoundHandle<H>>::empty(),
    {
        Handles { sounds: Vec::new() }
    }

    /// The number of sounds.
    pub fn len(&self) -> (r: usize)
        ensures
            r == self.sounds().len(),
    {
        self.sounds.len()
    }

    /// Keeps the handle of a sound that plays `event_name`.
    pub fn store(&mut self, event_name: CName, handle: H, affected_by_time_dilation: bool)
        ensures
            final(self).sounds() == old(self).sounds().push(
                (SoundHandle { event_name, handle, affected_by_time_dilation }),
            ),
    {
        self.sounds.push(SoundHandle { event_name, handle, affected_by_time_dilation });
    }

    /// The sound at `i`, to be stopped, paused, resumed or slowed; what is
    /// done to its handle stays.
    pub fn handle_mut(&mut self, i: usize) -> (r: &mut H)
        requires
            i < old(self).sounds().len(),
        ensures
            *r == old(self).sounds()[i as int].handle,
            final(self).sounds() == old(self).sounds().update(
                i as int,
                (SoundHandle { handle: *final(r), ..old(self).sounds()[i as int] }),
            ),
    {
        &mut self.sounds[i].handle
    }

    /// The positions of the sounds to stop for `event_name`: those that
    /// play it, in order.
    pub fn stop_by_event_name(&self, event_name: CName) -> (r: Vec<usize>)
        ensures
            r@ == event_positions(self.sounds(), event_name),
    {
        let ghost s = self.sounds@;
        let mut r: Vec<usize> = Vec::new();
        let mut i: usize = 0;
        while i < self.sounds.len()
            invariant
                i <= s.len(),
                s == self.sounds@,
                r@ == event_positions(s.take(i as int), event_name),
            decreases s.len() - i,
        {
            assert(s.take(i as int + 1).drop_last() =~= s.take(i as int));
            assert(s.take(i as int + 1).last() == s[i as int]);
            if self.sounds[i].event_name == event_name {
                r.push(i);
            }
            i = i + 1;
        }
        assert(s.take(s.len() as int) =~= s);
        r
    }

    /// The positions of the sounds that follow time dilation, in order.
    pub fn dilated(&self) -> (r: Vec<usize>)
        ensures
            r@ == dilated_positions(self.sounds()),
    {
        let ghost s = self.sounds@;
        let mut r: Vec<usize> = Vec::new();
        let mut i: usize = 0;
        while i < self.sounds.len()
            invariant
                i <= s.len(),
                s == self.sounds@,
                r@ == dilated_positions(s.take(i as int)),
            decreases s.len() - i,
        {
            assert(s.take(i as int + 1).drop_last() =~= s.take(i as int));
            assert(s.take(i as int + 1).last() == s[i as int]);
            if self.sounds[i].affected_by_time_dilation {
                r.push(i);
            }
            i = i + 1;
        }
        assert(s.take(s.len() as int) =~= s);
        r
    }

    /// Lets go of the sounds that stopped: `stopped` tells, for each sound
    /// in order, whether its playback has stopped. The others stay, in
    /// order.
    pub fn reclaim(&mut self, stopped: &Vec<bool>)
        requires
            stopped@.len() == old(self).sounds().len(),
        ensures
            final(self).sounds() == unstopped(old(self).sounds(), stopped@),
    {
        let ghost s = self.sounds@;
        let n = self.sounds.len();
        let mut rest: Vec<SoundHandle<H>> = Vec::new();
        std::mem::swap(&mut rest, &mut self.sounds);
        let mut kept: Vec<SoundHandle<H>> = Vec::new();
        let mut i: usize = 0;
        assert(s.skip(0) =~= s);
        while i < n
            invariant
                n == s.len(),
                stopped@.len() == n,
                i <= n,
                rest@ == s.skip(i as int),
                kept@ == unstopped(s.take(i as int), stopped@),
            decreases n - i,
        {
            let x = rest.remove(0);
            proof {
                assert(x == s[i as int]);
                assert(rest@ =~= s.skip(i as int + 1));
                assert(s.take(i as int + 1).drop_last() =~= s.take(i as int));
                assert(s.take(i as int + 1).last() == s[i as int]);
            }
            if !stopped[i] {
                kept.push(x);
            }
            i = i + 1;
        }
        assert(s.take(n as int) =~= s);
        self.sounds = kept;
    }
}

} // verus!
