//! The scroll state machine: a line offset into a tall virtual canvas,
//! clamped so the viewport never slides past the canvas.
use vstd::prelude::*;
use crate::spec_max_offset;
use crate::max_offset;

verus! {

/// Scroll position into a virtual canvas, together with the last known
/// terminal dimensions. Every operation keeps `inv()`.
#[derive(Clone, Copy, Debug)]
pub struct ScrollState {
    /// Line index of the canvas row aligned to the top of the viewport.
    pub offset: u16,
    /// Fixed height of the composited virtual canvas.
    pub virtual_height: u16,
    /// Last known terminal width.
    pub view_width: u16,
    /// Last known terminal height.
    pub view_height: u16,
}

/// The six scroll motions a navigation key can ask for.
#[derive(Clone, Copy, Debug, PartialEq, Eq, Structural)]
pub enum ScrollOp {
    UnitDown,
    UnitUp,
    PageDown,
    PageUp,
    ToTop,
    ToBottom,
}

/// A wished-for offset, clamped into the valid range of the state.
pub open spec fn spec_clamp(target: int, virtual_h: u16, view_h: u16) -> int {
    let m = spec_max_offset(virtual_h, view_h);
    if target > m {
        m
    } else if target < 0 {
        0
    } else {
        target
    }
}

/// What one scroll motion does to a state: the offset moves by the motion's
/// delta and is clamped; the dimensions stay.
pub open spec fn spec_scroll(s: ScrollState, op: ScrollOp) -> ScrollState {
    let target = match op {
        ScrollOp::UnitDown => s.offset + 1,
        ScrollOp::UnitUp => s.offset - 1,
        ScrollOp::PageDown => s.offset + s.view_height,
        ScrollOp::PageUp => s.offset - s.view_height,
        ScrollOp::ToTop => 0,
        ScrollOp::ToBottom => spec_max_offset(s.virtual_height, s.view_height),
    };
    ScrollState { offset: spec_clamp(target, s.virtual_height, s.view_height) as u16, ..s }
}

impl ScrollState {
    /// The clamping invariant: the offset never exceeds the greatest
    /// offset that still shows a full page (or the canvas tail).
    pub open spec fn inv(&self) -> bool {
        self.offset <= spec_max_offset(self.virtual_height, self.view_height)
    }

    /// A fresh state: top of the canvas.
    pub fn new(virtual_height: u16, view_width: u16, view_height: u16) -> (r: ScrollState)
        ensures
            r.inv(),
            r.offset == 0,
            r.virtual_height == virtual_height,
            r.view_width == view_width,
            r.view_height == view_height,
    {
        ScrollState { offset: 0, virtual_height, view_width, view_height }
    }

    /// Records the terminal dimensions seen at the latest draw and
    /// re-clamps the offset into the new valid range.
    pub fn set_viewport(&mut self, width: u16, height: u16)
        ensures
            final(self).inv(),
            final(self).view_width == width,
            final(self).view_height == height,
            final(self).virtual_height == old(self).virtual_height,
            final(self).offset == spec_clamp(
                old(self).offset as int,
                old(self).virtual_height,
                height,
            ),
    {
        self.view_width = width;
        self.view_height = height;
        let m = max_offset(self.virtual_height, self.view_height);
        if self.offset > m {
            self.offset = m;
        }
    }

    /// Applies one scroll motion; the offset stays clamped in range.
    pub fn apply(&mut self, op: ScrollOp)
        requires
            old(self).inv(),
        ensures
            final(self).inv(),
            *final(self) == spec_scroll(*old(self), op),
    {
        let m = max_offset(self.virtual_height, self.view_height);
        match op {
            ScrollOp::UnitDown => {
                if self.offset < m {
                    self.offset = self.offset + 1;
                }
            },
            ScrollOp::UnitUp => {
                if self.offset > 0 {
                    self.offset = self.offset - 1;
                }
            },
            ScrollOp::PageDown => {
                if m - self.offset <= self.view_height {
                    self.offset = m;
                } else {
                    self.offset = self.offset + self.view_height;
                }
            },
            ScrollOp::PageUp => {
                if self.offset <= self.view_height {
                    self.offset = 0;
                } else {
                    self.offset = self.offset - self.view_height;
                }
            },
            ScrollOp::ToTop => {
                self.offset = 0;
            },
            ScrollOp::ToBottom => {
                self.offset = m;
            },
        }
    }
}

/// `n` scroll motions of the same kind, one after the other.
pub open spec fn spec_scroll_n(s: ScrollState, op: ScrollOp, n: nat) -> ScrollState
    decreases n,
{
    if n == 0 {
        s
    } else {
        spec_scroll(spec_scroll_n(s, op, (n - 1) as nat), op)
    }
}

/// A scroll motion never changes the canvas or viewport dimensions.
pub proof fn lemma_scroll_keeps_dims(s: ScrollState, op: ScrollOp, n: nat)
    ensures
        spec_scroll_n(s, op, n).virtual_height == s.virtual_height,
        spec_scroll_n(s, op, n).view_height == s.view_height,
        spec_scroll_n(s, op, n).view_width == s.view_width,
    decreases n,
{
    if n > 0 {
        lemma_scroll_keeps_dims(s, op, (n - 1) as nat);
    }
}

/// Law: the top is a floor — after `scroll-to-top`, any number of unit
/// scrolls up leaves the offset at zero.
pub proof fn lemma_top_is_floor(s: ScrollState, n: nat)
    ensures
        spec_scroll_n(spec_scroll(s, ScrollOp::ToTop), ScrollOp::UnitUp, n).offset == 0,
    decreases n,
{
    if n > 0 {
        lemma_top_is_floor(s, (n - 1) as nat);
    }
}

/// Law: the bottom is a ceiling — after `scroll-to-bottom`, any number of
/// unit scrolls down leaves the offset at the greatest valid offset.
pub proof fn lemma_bottom_is_ceiling(s: ScrollState, n: nat)
    ensures
        spec_scroll_n(spec_scroll(s, ScrollOp::ToBottom), ScrollOp::UnitDown, n).offset
            == spec_max_offset(s.virtual_height, s.view_height),
    decreases n,
{
    lemma_scroll_keeps_dims(spec_scroll(s, ScrollOp::ToBottom), ScrollOp::UnitDown, n);
    if n > 0 {
        lemma_bottom_is_ceiling(s, (n - 1) as nat);
        lemma_scroll_keeps_dims(spec_scroll(s, ScrollOp::ToBottom), ScrollOp::UnitDown, (n - 1) as nat);
    }
}

/// Law: every scroll motion lands in the valid range — the clamping
/// invariant holds of any number of motions from any state.
pub proof fn lemma_scroll_clamped(s: ScrollState, op: ScrollOp)
    ensures
        spec_scroll(s, op).inv(),
{
}

} // verus!
