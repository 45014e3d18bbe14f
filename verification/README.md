# gradus

The logic of the Gradus practice suite (metronome, tuner, rhythm and score
editors) as a Verus-verified library, with the GTK/audio program around it.

- `src/` — the verified library:
  - `editor`, `beat`: bars of sixteenth slots, accents and their click cycles;
  - `metronome`: engine commands and events, and the step sequencer that
    decides when each slot of the bar starts;
  - `metronome_panel`: start/stop, animation phases and tempo of the panel;
  - `bar_editor`: growing and shrinking the pattern a beat at a time;
  - `note_detector`, `notedetector`: naming notes from piano key numbers;
  - `partiture_editor`, `score_editor`: ABC tokens and headers, the cursor's
    note, and highlighting it in the rendered SVG;
  - `text`: verified character helpers.
- `tests/` — tests of the library.
- `app/` — the desktop program: GTK components, audio streams, pitch
  detection, score rendering and the floating-point arithmetic around them.
