# metronome

A metronome, a scales-and-chords reference for the guitar and a Guitar Pro
tab player, written as a verified library with a small console program
around it.

- `src/` is the library. Its functions carry contracts that Verus proves:
  the scale and chord tables and the chord voicer, the Guitar Pro 5 and
  Guitar Pro 7/8 score readers, the MIDI timeline and the playback engine,
  the metronome timer with its tempo ramp, the pages of the application and
  their messages, the tab strip's selection, the themes, recent files and
  settings stores. The few calls into std, the zip crate (unpacking a
  Guitar Pro 7/8 archive) and serde_json (reading the settings file) sit in
  small wrappers whose contracts are stated, not proved. Public `lemma_`
  proof functions state the laws that hold across calls.
- `tests/` runs the library on concrete values.
- `app/` is the program: reading and writing files, the audio thread with
  FluidSynth, the timer thread, and the terminal front end.
