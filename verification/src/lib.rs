//! A monitor-layout and reconciliation engine.
//!
//! The library places physical displays inside a miniature canvas, turns
//! pointer drags into clamped logical repositioning, detects when the visual
//! arrangement diverges from the live hardware configuration, and synthesizes
//! the single configuration command that applies the divergence.
//!
//! All geometry is exact: scale factors are integer fractions and every
//! logical coordinate is an integer numerator over a registry-wide
//! denominator, so the contracts state each placement formula precisely.

pub mod command;
pub mod detect;
pub mod drag;
pub mod layout;
pub mod model;
pub mod numtext;
pub mod parse;
pub mod preview;
pub mod reconcile;
pub mod settings;
