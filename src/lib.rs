//! A monophonic pulse-wave synthesizer core: a parameter store shared between
//! a control context and a render context, a note tracker fed by raw MIDI
//! bytes, and an engine that renders a replaceable audio graph in fixed
//! blocks of 64 frames.

pub mod engine;
pub mod midi;
pub mod notes;
pub mod params;
pub mod synth;
