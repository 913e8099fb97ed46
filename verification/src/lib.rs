//! A real-time equalizer for raw PCM: ten bands and two tone shelves, edited
//! live, on a stream that is decoded, filtered and played.
//!
//! The library holds what can be decided without touching the outside world.
//! It decodes samples and cuts them into frames ([`sample`], [`audio`]), keeps
//! the equalizer state and hands it to the DSP ([`equalizer`], [`dsp`]),
//! drives the input and the output from one event to the next ([`reader`],
//! [`output`]), and computes the interface: keys, texts, meters and sliders
//! ([`ui`], [`display`], [`sliders`], [`single`]). [`control`] is what the
//! interface edits, in this process or, through the control API ([`server`],
//! [`remote`], [`header`]), in another one. [`settings`], [`presets`] and
//! [`startup`] say what a run begins with.

pub mod audio;
pub mod control;
pub mod display;
pub mod dsp;
pub mod equalizer;
pub mod header;
pub mod output;
pub mod presets;
pub mod reader;
pub mod remote;
pub mod sample;
pub mod server;
pub mod settings;
pub mod single;
pub mod sliders;
pub mod startup;
pub mod text;
pub mod ui;
