//! Monophonic "highest note wins" arbitration of a MIDI note-event stream,
//! with a chord-detection window, and a MIDI panic burst generator.
//!
//! Everything here works on the crate's own [`event::Event`] type; a host
//! integration converts its events to and from it.

pub mod event;
pub mod arbiter;
pub mod laws;
pub mod midi_panic;
