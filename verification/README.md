# equalizer

A real-time equalizer for raw PCM pipes: ten bands and two tone shelves, edited
live in the terminal or over a control API, on audio from stdin, a FIFO or a
unix socket, played on the sound card or written to another pipe.

- `src/` is the library, written in Verus. Every function in it carries a
  contract that Verus proves: decoding and framing of PCM, the equalizer state
  and what the DSP is handed, the reader and output steps, the interface (keys,
  texts, meters, sliders), the control API and its client, settings, presets
  and startup choices. What it takes on trust are the calls into
  `rockbox_dsp` (`src/dsp.rs`), two header conversions of `tonic`
  (`src/header.rs`) and three functions of the standard library
  (`String::push` in `src/text.rs`, `{:?}` of a text in `src/server.rs`,
  `str::to_lowercase` in `src/startup.rs`).
- `tests/` runs the library on concrete values, with the real DSP.
- `app/` is the program around it: command line, files, sockets, gRPC, terminal
  and sound card.
