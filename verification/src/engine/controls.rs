//! Ids that let scripts control a sound once it plays.

use vstd::prelude::*;

verus! {

/// The id of a controlled sound.
#[derive(Debug, Clone, Copy, PartialEq, Eq, Hash, Structural)]
pub struct ControlId(pub usize);

/// The counter that control ids are drawn from.
pub struct ControlCounter {
    pub next: usize,
}

impl ControlCounter {
    /// A counter that starts at 0.
    pub fn new() -> (r: ControlCounter)
        ensures
            r.next == 0,
    {
        ControlCounter { next: 0 }
    }
}

/// The counter after one draw: it wraps around past the largest value.
pub open spec fn after_draw(n: usize) -> usize {
    if n == usize::MAX { 0 } else { (n + 1) as usize }
}

/// Draws the next control id: the counter's value, which then moves on.
pub fn next_control_id(counter: &mut ControlCounter) -> (r: ControlId)
    ensures
        r == ControlId(old(counter).next),
        final(counter).next == after_draw(old(counter).next),
{
    let id = ControlId(counter.next);
    counter.next = counter.next.wrapping_add(1);
    id
}

/// Ids drawn one after the other differ, and so do any two of fewer draws
/// than there are values.
pub proof fn law_draws_differ(n: usize, k: nat)
    requires
        0 < k <= usize::MAX,
    ensures
        after_draw(n) != n,
        draw_n(n, k) != n,
{
    lemma_draw_n(n, k);
    let m = usize::MAX as int + 1;
    if n + k < m {
        assert((n + k) % m == n + k) by (nonlinear_arith)
            requires 0 <= n + k < m;
    } else {
        assert((n + k) % m == n + k - m) by (nonlinear_arith)
            requires m <= n + k < 2 * m;
    }
}

/// The counter after `k` draws.
pub open spec fn draw_n(n: usize, k: nat) -> usize
    decreases k,
{
    if k == 0 { n } else { after_draw(draw_n(n, (k - 1) as nat)) }
}

proof fn lemma_draw_n(n: usize, k: nat)
    ensures
        draw_n(n, k) as int == (n + k) % (usize::MAX as int + 1),
    decreases k,
{
    if k > 0 {
        lemma_draw_n(n, (k - 1) as nat);
        let m = usize::MAX as int + 1;
        let prev = draw_n(n, (k - 1) as nat) as int;
        assert((n + k) % m == (prev + 1) % m) by (nonlinear_arith)
            requires
                prev == (n + k - 1) % m,
                m > 0,
        {
            vstd::arithmetic::div_mod::lemma_add_mod_noop(n + k - 1, 1, m);
        }
        if prev == usize::MAX as int {
            assert((prev + 1) % m == 0) by (nonlinear_arith)
                requires prev + 1 == m, m > 0;
        } else {
            assert((prev + 1) % m == prev + 1) by (nonlinear_arith)
                requires 0 <= prev + 1 < m;
        }
    } else {
        assert((n + 0) % (usize::MAX as int + 1) == n as int) by (nonlinear_arith)
            requires 0 <= n <= usize::MAX;
    }
}

} // verus!
