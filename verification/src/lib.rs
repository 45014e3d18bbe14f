//! Core logic of the Gradus music practice suite: bar patterns and accents,
//! the metronome's step sequencer, note naming for the tuner, and the text
//! handling behind the ABC score editors.

pub mod bar_editor;
pub mod beat;
pub mod editor;
pub mod metronome;
pub mod metronome_panel;
pub mod note_detector;
pub mod notedetector;
pub mod partiture_editor;
pub mod score_editor;
pub mod text;
