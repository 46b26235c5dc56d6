//! The layout-and-interaction core of an immediate-mode GUI.
//!
//! Callers rebuild their interface every frame by reserving space in nested
//! [`region::Region`]s. The library computes positions, resolves hover,
//! click and grab against the frame's input, keeps the little state that
//! outlives a frame, and collects draw commands for a renderer.

pub mod math;
pub mod types;
pub mod font;
pub mod id;
pub mod layout;
pub mod text;
pub mod region;
pub mod widgets;
pub mod popup;
pub mod laws;
