# audioware

The verified core of an audio plugin for a game engine, written in Verus.

- `src/names.rs`: engine names and the validation of names handed over by scripts.
- `src/manifest.rs`: locales, genders and manifest sections.
- `src/bank/`: the sound banks: keys, ids, the registry and its lookup, the
  checks on mods and manifests, the registration of every manifest entry
  (`load.rs`), subtitles and their localization packages, and set-once
  storage.
- `src/engine/`: the engine's bookkeeping: loop flags and the loop's decisions,
  muted vanilla events, script callbacks, registered emitters, routing of
  sounds to tracks, time dilation, player settings and control ids.
- `src/abi/`: the values that the game and scripts send, and the lines
  that tell of them.
- `src/audio/`: audio data and the settings it absorbs.
- `app/`: the unverified side: the engine loop's channels and thread, the
  player's settings shared across threads, and the mods' folders and
  manifests read from disk and parsed.
- `tests/`: tests of the library.

Every public function states what it returns in its contract; the laws that
span functions are public proof functions named `law_*`.
