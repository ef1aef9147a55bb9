//! Cross-frame widget memory and window-layering store for an
//! immediate-mode GUI.
//!
//! An immediate-mode GUI rebuilds its whole widget tree every frame, so any
//! state that must survive across frames lives in a side store keyed by a
//! stable widget identity. This crate provides that store: typed per-kind
//! state tables, registers for the active and keyboard-focused widget, and a
//! floating-window layer stack with z-order, frame-to-frame visibility
//! tracking and a point-to-window hit test.

pub mod geometry;
pub mod id;
pub mod idmap;
pub mod idset;
pub mod laws;
pub mod memory;
pub mod widgets;
