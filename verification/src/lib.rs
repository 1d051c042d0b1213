//! A keyboard/mouse remapping engine.
//!
//! Raw hardware events are matched against an ordered table of remap rules.
//! The first enabled rule whose selector equals the event's origin wins; the
//! engine then tells its host whether to suppress the physical event or pass
//! it through unchanged, and which synthetic events to inject in its place.
//! Chord output is planned as an explicit step sequence: every key pressed in
//! listed order, a fixed settle delay, then every key released in reverse
//! order.
//!
//! The engine itself performs no I/O: the host runtime owns the OS hook that
//! delivers raw events and carries out the planned synthesis steps.

pub mod config;
pub mod engine;
pub mod laws;
pub mod singleton;
pub mod synth;
