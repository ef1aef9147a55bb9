//! Per-kind widget state payloads.
//!
//! The store holds these values but never interprets them: what a payload
//! means is the concern of the widget code that reads and writes it. The set
//! of widget kinds is fixed and known at build time, so each kind gets its
//! own plain type and its own table in the store.

use vstd::prelude::*;
use crate::geometry::Pos2;
use crate::geometry::Vec2;

verus! {

/// Cross-frame state of a collapsing header widget.
#[derive(Clone, Copy, PartialEq, Eq, Structural, Debug)]
pub struct CollapsingHeaderState {
    /// Whether the header is currently expanded.
    pub expanded: bool,
}

/// Cross-frame state of a scroll area widget.
#[derive(Clone, Copy, PartialEq, Eq, Structural, Debug)]
pub struct ScrollAreaState {
    /// Current scroll offset.
    pub offset: Vec2,
}

/// Cross-frame state of a resizable region.
#[derive(Clone, Copy, PartialEq, Eq, Structural, Debug)]
pub struct ResizeState {
    /// Size the user has resized the region to.
    pub size: Vec2,
}

/// Cross-frame state of a floating window: its geometry.
///
/// Position and size together define the rectangle used by the hit test.
#[derive(Clone, Copy, PartialEq, Eq, Structural, Debug)]
pub struct FloatingState {
    /// Minimum corner of the window rectangle.
    pub pos: Pos2,
    /// Extent of the window rectangle.
    pub size: Vec2,
}

impl FloatingState {
    /// The rectangle the window covers on screen.
    pub open spec fn spec_rect(self) -> crate::geometry::Rect {
        crate::geometry::Rect { min: self.pos, size: self.size }
    }
}

} // verus!
