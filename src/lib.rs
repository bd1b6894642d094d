//! Runtime core of a small real-time application: a stack of game modes driven by
//! transitions, a markup parser for styled text, deterministic text layout with
//! hit-testing, the game modes themselves, and the per-frame scheduling decisions.

pub mod billboard;
pub mod color;
pub mod controls;
pub mod markup;
pub mod modes;
pub mod number;
pub mod profile;
pub mod render;
pub mod schedule;
pub mod text;
pub mod transition;
