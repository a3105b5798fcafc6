//! A terminal cellular-automaton visualizer: a configuration menu and a
//! Game-of-Life simulation, drawn through a double-buffered, diff-based
//! renderer and driven by a generic per-tick engine step.
//!
//! The crate holds the verified core: the frame model, the renderer's diff
//! planner, the menu and simulation state machines, and the engine's per-tick
//! transition. Terminal input and output are left to the surrounding binary,
//! which feeds events in and carries cell writes out as plain values.

pub mod engine;
pub mod life;
pub mod menu;
pub mod render;
pub mod rng;
