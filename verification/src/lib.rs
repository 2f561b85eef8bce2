//! A terminal reading view for serialized web novels: an immutable content
//! model, a clamped scroll state machine, a pure virtual-canvas compositor,
//! and the controller state machine that maps key input to scroll motions.
use vstd::prelude::*;

pub mod banner;
pub mod canvas;
pub mod content;
pub mod controller;
pub mod scroll;
pub mod text;
pub mod web;

verus! {

/// Greatest offset a viewport of height `view_h` may take into a virtual
/// canvas of height `virtual_h`: the canvas never scrolls past its last page.
pub open spec fn spec_max_offset(virtual_h: u16, view_h: u16) -> int {
    if view_h >= virtual_h {
        0
    } else {
        virtual_h - view_h
    }
}

/// Executable twin of `spec_max_offset`.
pub fn max_offset(virtual_h: u16, view_h: u16) -> (r: u16)
    ensures
        r == spec_max_offset(virtual_h, view_h),
{
    if view_h >= virtual_h {
        0
    } else {
        virtual_h - view_h
    }
}

} // verus!
