//! The resize flag: one shared boolean between the terminal-size watcher
//! and the main loop. The watcher raises it on any size change; the loop
//! takes it with test-and-clear semantics, so a burst of resize events
//! inside one poll interval coalesces into a single repaint.

use vstd::prelude::*;

verus! {

/// The single boolean the watcher writes and the main loop consumes.
/// The caller shares it behind its own lock; every transition on it is
/// one of the methods here.
pub struct ResizeFlag {
    pub raised: bool,
}

impl ResizeFlag {
    /// A fresh flag, not raised.
    pub fn new() -> (flag: ResizeFlag)
        ensures
            !flag.raised,
    {
        ResizeFlag { raised: false }
    }

    /// The watcher's step: compare the size sampled now against the
    /// previous sample and raise the flag on any difference. Raising an
    /// already-raised flag changes nothing — bursts coalesce.
    pub fn observe(&mut self, prev_cols: u16, prev_rows: u16, cols: u16, rows: u16)
        ensures
            final(self).raised == (old(self).raised || cols != prev_cols || rows != prev_rows),
            (cols != prev_cols || rows != prev_rows) ==> *final(self) == spec_raise(*old(self)),
            (cols == prev_cols && rows == prev_rows) ==> *final(self) == *old(self),
    {
        if cols != prev_cols || rows != prev_rows {
            self.raised = true;
        }
    }

    /// The consumer's step: report whether a resize was pending and clear
    /// the flag, so the next take reports nothing until a new change.
    pub fn take(&mut self) -> (was_raised: bool)
        ensures
            was_raised == old(self).raised,
            !final(self).raised,
            (was_raised, *final(self)) == spec_take(*old(self)),
    {
        let was_raised = self.raised;
        self.raised = false;
        was_raised
    }
}

/// The flag after one watcher step that saw a change.
pub open spec fn spec_raise(flag: ResizeFlag) -> ResizeFlag {
    ResizeFlag { raised: true }
}

/// The flag after `n` watcher steps that each saw a change.
pub open spec fn spec_raise_n(flag: ResizeFlag, n: nat) -> ResizeFlag
    decreases n,
{
    if n == 0 {
        flag
    } else {
        spec_raise(spec_raise_n(flag, (n - 1) as nat))
    }
}

/// The consumer's step as a value: what `take` reports, and the flag it
/// leaves.
pub open spec fn spec_take(flag: ResizeFlag) -> (bool, ResizeFlag) {
    (flag.raised, ResizeFlag { raised: false })
}

/// Any run of `n >= 1` resize events inside one poll interval produces
/// exactly one repaint: the first take after the burst reports a change
/// once, and a second take — with no new event between — reports none.
pub proof fn lemma_resize_coalesces(flag: ResizeFlag, n: nat)
    requires
        n >= 1,
    ensures
        spec_take(spec_raise_n(flag, n)).0,
        !spec_take(spec_take(spec_raise_n(flag, n)).1).0,
    decreases n,
{
    if n > 1 {
        lemma_resize_coalesces(flag, (n - 1) as nat);
    }
}

} // verus!
