# xsynth

A software synthesizer: SFZ and SoundFont 2 instruments, voices, and samples that are
read from disk while they play. The library under `src/` is written in Verus, and its
functions are verified against their contracts. What is believed without proof are the
calls into other code, each behind a small function or a specification of its own:

- `share` in `src/lib.rs`, which copies an `Arc`, and the specifications of
  `String::push` in `src/text.rs` and of `RangeInclusive::start` and `RangeInclusive::end`
  in `src/soundfont/load.rs`;
- `decode` in `src/sfz/resolver.rs`, which decodes text with `encoding_rs_io`;
- `load`, `presets_of`, `instruments_of`, `preset_modulators_of`, `instrument_modulators_of`,
  `sample_headers_of` and `sample_chunks_of` in `src/sf2/file.rs`, which read SoundFont 2
  files with `soundfont`.

What is proved of channels holds for voices that keep the contract of the trait `Voice`.

The modules:

- `sfz/` reads SFZ instruments: the texts of their files and of those that they import,
  the variables in them, the opcodes, and what headers hand down to regions.
- `sf2/` checks how the chunks of SoundFont 2 files stand, reads what their zones say, keeps
  the modulators that the key and the velocity of a note settle, and merges the zones of
  presets with those of their instruments.
- `soundfont/` holds what an instrument plays for each key and velocity, how samples
  lie in WAV and cache files, and the rings through which voices read them. What a voice
  hears of a stream is proved to be the sample itself.
- `channel/` is a MIDI channel: its events, its keys, the voices of each key, and which
  of them give way when there are too many.
- `voice/` decides which frames of its sample a voice plays, and when modulations act.
- `effects/` holds the delay line of a channel.

Laws that relate several functions stand beside them as public proof functions.

The library does not read files, start threads or calculate with floating-point numbers.
That is done in `app/`, which makes cache files for sample libraries, loads instruments
and plays them on a channel. Run under the name `chord_render`, it plays a chord on an
instrument and writes what is heard to WAV files. Numbers of SFZ files travel through the library as the
texts that write them.
